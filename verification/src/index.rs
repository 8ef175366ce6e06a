//! Row ids (`GenericRowId`) and ranges of rows (`RowRange`).

use vstd::prelude::*;
use core::marker::PhantomData;
use crate::tables::{GetTableName, LockedTable};
use crate::joincore::{Join, JoinCore, ord_rel};
use core::cmp::Ordering;
use std::collections::BTreeMap;
use vstd::std_specs::iter::IteratorSpec;
use vstd::std_specs::cmp::{OrdSpec, PartialEqSpecImpl, PartialOrdSpecImpl};
use vstd::std_specs::convert::FromSpecImpl;

verus! {

broadcast use {vstd::seq_lib::to_multiset_remove, vstd::seq_lib::to_multiset_insert, vstd::seq_lib::to_multiset_contains, vstd::multiset::group_multiset_axioms};

/// The index of a row of table `T`. Its text form, `table[i]`, is given by
/// `describe`.
#[derive(Debug)]
pub struct GenericRowId<T> {
    pub i: usize,
    pub t: PhantomData<T>,
}

impl<T: GetTableName> GenericRowId<T> {
    /// The text a row id prints as: its table's name, then the index between
    /// brackets, as in `ships[23]`.
    pub fn describe(&self) -> (r: String)
        ensures
            r@ == T::spec_get_name()@ + "["@ + crate::tables::decimal_text(self.i as nat) + "]"@,
    {
        let mut s = T::get_name().0.to_string();
        s.append("[");
        crate::tables::append_decimal(&mut s, self.i);
        s.append("]");
        s
    }
}

impl<T> Clone for GenericRowId<T> {
    fn clone(&self) -> (r: Self)
        ensures
            r == *self,
    {
        GenericRowId { i: self.i, t: PhantomData }
    }
}

impl<T> Copy for GenericRowId<T> {

}

impl<T> PartialEq for GenericRowId<T> {
    fn eq(&self, other: &Self) -> (r: bool) {
        self.i == other.i
    }
}

impl<T> PartialEqSpecImpl for GenericRowId<T> {
    open spec fn obeys_eq_spec() -> bool {
        true
    }

    open spec fn eq_spec(&self, other: &Self) -> bool {
        self.i == other.i
    }
}

impl<T> Eq for GenericRowId<T> {

}

impl<T> PartialOrd for GenericRowId<T> {
    fn partial_cmp(&self, other: &Self) -> (r: Option<Ordering>) {
        if self.i < other.i {
            Some(Ordering::Less)
        } else if self.i == other.i {
            Some(Ordering::Equal)
        } else {
            Some(Ordering::Greater)
        }
    }
}

impl<T> PartialOrdSpecImpl for GenericRowId<T> {
    open spec fn obeys_partial_cmp_spec() -> bool {
        true
    }

    open spec fn partial_cmp_spec(&self, other: &Self) -> Option<Ordering> {
        if self.i < other.i {
            Some(Ordering::Less)
        } else if self.i == other.i {
            Some(Ordering::Equal)
        } else {
            Some(Ordering::Greater)
        }
    }
}

impl<T> Default for GenericRowId<T> {
    /// The undefined row id.
    fn default() -> (r: Self)
        ensures
            r.i == usize::MAX,
    {
        GenericRowId { i: usize::MAX, t: PhantomData }
    }
}

impl<T> GenericRowId<T> {
    pub fn new(i: usize) -> (r: Self)
        ensures
            r.i == i,
    {
        GenericRowId { i, t: PhantomData }
    }

    pub fn from_usize(i: usize) -> (r: Self)
        ensures
            r.i == i,
    {
        Self::new(i)
    }

    pub fn to_usize(&self) -> (r: usize)
        ensures
            r == self.i,
    {
        self.i
    }

    pub fn to_raw(&self) -> (r: usize)
        ensures
            r == self.i,
    {
        self.i
    }

    /// The row after this one.
    pub fn next(&self) -> (r: Self)
        requires
            self.i < usize::MAX,
        ensures
            r.i == self.i + 1,
    {
        Self::new(self.i + 1)
    }

    /// The undefined row id.
    pub fn undefined() -> (r: Self)
        ensures
            r.i == usize::MAX,
    {
        Self::new(usize::MAX)
    }
}

/// The row ids of `s`, by index, never decrease.
pub open spec fn sorted_rows<T>(s: Seq<GenericRowId<T>>) -> bool {
    forall|a: int, b: int| 0 <= a < b < s.len() ==> s[a].i <= s[b].i
}

/// Sorts `v` by row index.
pub fn sort_rows<T>(v: &mut Vec<GenericRowId<T>>)
    ensures
        sorted_rows(final(v)@),
        final(v)@.to_multiset() == old(v)@.to_multiset(),
{
    let n = v.len();
    let mut i: usize = 1;
    if n == 0 {
        return;
    }
    while i < n
        invariant
            1 <= i <= n,
            n == v@.len(),
            sorted_rows(v@.subrange(0, i as int)),
            v@.to_multiset() == old(v)@.to_multiset(),
        decreases n - i,
    {
        let ghost before = v@;
        let x = v.remove(i);
        let ghost removed = v@;
        assert(removed.subrange(0, i as int) == before.subrange(0, i as int));
        let mut j: usize = i;
        while j > 0 && v[j - 1].i > x.i
            invariant
                0 <= j <= i,
                i < n,
                v@ == removed,
                removed.len() == n - 1,
                sorted_rows(removed.subrange(0, i as int)),
                forall|k: int| j <= k < i ==> removed[k].i > x.i,
            decreases j,
        {
            j = j - 1;
        }
        v.insert(j, x);
        proof {
            let s = v@;
            assert(s == removed.insert(j as int, x));
            assert forall|a: int, b: int| 0 <= a < b < i + 1 implies (#[trigger] s[a]).i <= (#[trigger] s[b]).i by {
                let sa = s[a];
                let sb = s[b];
                if b < j {
                    assert(sa == removed[a] && sb == removed[b]);
                } else if b == j {
                    assert(sa == removed[a]);
                    if j > 0 {
                        assert(removed[j - 1].i <= x.i);
                        assert(removed.subrange(0, i as int)[a].i <= removed.subrange(0, i as int)[j - 1].i);
                    }
                } else if a < j {
                    assert(sa == removed[a] && sb == removed[b - 1]);
                    assert(removed.subrange(0, i as int)[a].i <= removed.subrange(0, i as int)[b - 1].i);
                } else if a == j {
                    assert(sb == removed[b - 1]);
                } else {
                    assert(sa == removed[a - 1] && sb == removed[b - 1]);
                    assert(removed.subrange(0, i as int)[a - 1].i <= removed.subrange(0, i as int)[b - 1].i);
                }
            }
            assert forall|a: int, b: int| 0 <= a < b < i + 1 implies (#[trigger] s.subrange(0, i + 1)[a]).i <= (#[trigger] s.subrange(0, i + 1)[b]).i by {
                assert(s.subrange(0, i + 1)[a] == s[a]);
                assert(s.subrange(0, i + 1)[b] == s[b]);
            }
            assert(before.remove(i as int) == removed);
            assert(s.to_multiset() == removed.to_multiset().insert(x));
            assert(removed.to_multiset() == before.to_multiset().remove(before[i as int]));
            assert(before[i as int] == x);
            assert(before.contains(x));
            assert(before.to_multiset().count(x) > 0);
            assert(s.to_multiset() =~= before.to_multiset());
        }
        i = i + 1;
    }
    assert(v@.subrange(0, n as int) =~= v@);
}

/// A range of rows: from `start` included to `end` excluded.
#[derive(Debug, Clone, Copy)]
pub struct RowRange<R> {
    pub start: R,
    pub end: R,
}

impl<R> From<core::ops::Range<R>> for RowRange<R> {
    fn from(range: core::ops::Range<R>) -> (r: RowRange<R>) {
        RowRange { start: range.start, end: range.end }
    }
}

impl<R> FromSpecImpl<core::ops::Range<R>> for RowRange<R> {
    open spec fn obeys_from_spec() -> bool {
        true
    }

    open spec fn from_spec(range: core::ops::Range<R>) -> RowRange<R> {
        RowRange { start: range.start, end: range.end }
    }
}

impl<R> RowRange<R> {
    /// The range `start..end`.
    pub fn into_range(self) -> (r: core::ops::Range<R>)
        ensures
            r.start == self.start,
            r.end == self.end,
    {
        self.start..self.end
    }
}

impl<T> RowRange<GenericRowId<T>> {
    /// The row `n` after the start, if it lies within the range.
    pub open spec fn offset_of(&self, n: int) -> Option<int> {
        if 0 <= n && self.holds(self.start.i + n) {
            Some(self.start.i + n)
        } else {
            None
        }
    }

    /// `o` lies in the range.
    pub open spec fn holds(&self, o: int) -> bool {
        self.start.i <= o < self.end.i
    }

    /// The offset of `o` from the start, if `o` lies in the range.
    pub open spec fn index_of_row(&self, o: int) -> Option<int> {
        if self.holds(o) {
            Some(o - self.start.i)
        } else {
            None
        }
    }

    /// Offsetting the start by `n` rows gives a row exactly when `n` is less than
    /// the range's length; that row lies in the range, `n` rows in.
    pub proof fn lemma_offset_inner_index(&self, n: int)
        requires
            0 <= n,
        ensures
            self.offset_of(n) is Some <==> n < self.end.i - self.start.i,
            self.offset_of(n) matches Some(x) ==> (self.holds(x) && self.index_of_row(x) == Some(n)),
    {
    }

    /// A range of undefined row ids.
    pub fn empty() -> (r: Self)
        ensures
            r.start.i == usize::MAX,
            r.end.i == usize::MAX,
    {
        RowRange { start: GenericRowId::undefined(), end: GenericRowId::undefined() }
    }

    /// The `n`th row after the start, if it is within the range.
    pub fn offset(&self, n: usize) -> (r: Option<GenericRowId<T>>)
        ensures
            match r {
                Some(x) => self.offset_of(n as int) == Some(x.i as int),
                None => self.offset_of(n as int) is None,
            },
    {
        match self.start.i.checked_add(n) {
            None => None,
            Some(at) => {
                if at >= self.end.i {
                    None
                } else {
                    Some(GenericRowId::new(at))
                }
            },
        }
    }

    /// How many rows are in this range.
    pub fn len(&self) -> (r: usize)
        requires
            self.start.i <= self.end.i,
        ensures
            r == self.end.i - self.start.i,
    {
        self.end.i - self.start.i
    }

    /// Whether `o` is within this range.
    pub fn contains(&self, o: GenericRowId<T>) -> (r: bool)
        ensures
            r == self.holds(o.i as int),
    {
        self.start.i <= o.i && o.i < self.end.i
    }

    /// The offset of `o` from the start, if `o` is within this range.
    pub fn inner_index(&self, o: GenericRowId<T>) -> (r: Option<usize>)
        ensures
            match r {
                Some(k) => self.index_of_row(o.i as int) == Some(k as int),
                None => self.index_of_row(o.i as int) is None,
            },
    {
        if self.contains(o) {
            Some(o.i - self.start.i)
        } else {
            None
        }
    }

    /// The rows of the range, one after the other.
    pub fn iter_slow(&self) -> (r: UncheckedIter<T>)
        ensures
            r.i == self.start.i,
            r.end == self.end.i,
    {
        UncheckedIter { i: self.start.i, end: self.end.i, t: PhantomData }
    }
}

/// Walks the row ids from `i` up to `end`, excluded.
pub struct UncheckedIter<T> {
    pub i: usize,
    pub end: usize,
    pub t: PhantomData<T>,
}

impl<T> UncheckedIter<T> {
    /// The next row id, or `None` once `end` is reached.
    pub fn next(&mut self) -> (r: Option<GenericRowId<T>>)
        ensures
            old(self).i >= old(self).end ==> r is None && *final(self) == *old(self),
            old(self).i < old(self).end ==> (r matches Some(x) && x.i == old(self).i && final(self).i
                == old(self).i + 1 && final(self).end == old(self).end),
    {
        if self.i >= self.end {
            None
        } else {
            let ret = GenericRowId::new(self.i);
            self.i = self.i + 1;
            Some(ret)
        }
    }
}

impl<T> UncheckedIter<T> {
    /// How many rows are left: exactly `end - i`.
    pub fn size_hint(&self) -> (r: (usize, Option<usize>))
        requires
            self.i <= self.end,
        ensures
            r.0 == self.end - self.i,
            r.1 == Some((self.end - self.i) as usize),
    {
        let s = self.end - self.i;
        (s, Some(s))
    }
}

impl<T> GenericRowId<T> {
    /// Checks the row against `table`: the row must be within its length.
    pub fn check<'a, L: LockedTable<Row = T>>(self, table: &'a L) -> (r: CheckedRowId<'a, L>)
        requires
            self.i < table.row_count(),
        ensures
            r.index() == self.i,
            r.on_table() == *table,
    {
        CheckedRowId::fab(self.i, table)
    }

    /// The row id itself.
    pub fn uncheck(self) -> (r: GenericRowId<T>)
        ensures
            r == self,
    {
        self
    }
}

/// A row id that is known to be within the bounds of the table it borrows.
pub struct CheckedRowId<'a, T: LockedTable> {
    i: usize,
    table: &'a T,
}

impl<'a, T: LockedTable> CheckedRowId<'a, T> {
    #[verifier::type_invariant]
    spec fn in_bounds(self) -> bool {
        self.i < self.table.row_count()
    }

    /// The row's index.
    pub closed spec fn index(self) -> usize {
        self.i
    }

    /// The table the row was checked against.
    pub closed spec fn on_table(self) -> T {
        *self.table
    }

    /// A checked row id for row `i` of `table`, which the caller has checked.
    pub fn fab(i: usize, table: &'a T) -> (r: Self)
        requires
            i < table.row_count(),
        ensures
            r.index() == i,
            r.on_table() == *table,
    {
        CheckedRowId { i, table }
    }

    pub fn to_usize(&self) -> (r: usize)
        ensures
            r == self.index(),
            r < self.on_table().row_count(),
    {
        proof {
            use_type_invariant(self);
        }
        self.i
    }

    pub fn to_raw(&self) -> (r: usize)
        ensures
            r == self.index(),
            r < self.on_table().row_count(),
    {
        proof {
            use_type_invariant(self);
        }
        self.i
    }

    /// The (unchecked) row after this one.
    pub fn next(self) -> (r: GenericRowId<T::Row>)
        ensures
            r.i == self.index() + 1,
    {
        proof {
            use_type_invariant(&self);
        }
        self.uncheck().next()
    }

    /// Moves the check over to `table`, which must hold the row too.
    pub fn check<'c, L: LockedTable<Row = T::Row>>(self, table: &'c L) -> (r: CheckedRowId<'c, L>)
        requires
            self.index() < table.row_count(),
        ensures
            r.index() == self.index(),
            r.on_table() == *table,
    {
        CheckedRowId { i: self.i, table }
    }

    /// Forgets the check.
    pub fn uncheck(self) -> (r: GenericRowId<T::Row>)
        ensures
            r.i == self.index(),
    {
        GenericRowId::new(self.i)
    }
}

impl<'a, T: LockedTable> Clone for CheckedRowId<'a, T> {
    fn clone(&self) -> (r: Self)
        ensures
            r.index() == self.index(),
            r.on_table() == self.on_table(),
    {
        proof {
            use_type_invariant(self);
        }
        CheckedRowId { i: self.i, table: self.table }
    }
}

impl<'a, T: LockedTable> Copy for CheckedRowId<'a, T> {

}

/// Walks the rows of a range of a table, checked against the table.
pub struct CheckedIter<'a, T: LockedTable> {
    table: &'a T,
    i: usize,
    end: usize,
}

impl<'a, T: LockedTable> CheckedIter<'a, T> {
    #[verifier::type_invariant]
    spec fn ends_in_table(self) -> bool {
        self.end <= self.table.row_count()
    }

    /// The next row to yield.
    pub closed spec fn pos(self) -> usize {
        self.i
    }

    /// Where the walk stops (excluded).
    pub closed spec fn end_pos(self) -> usize {
        self.end
    }

    /// The table walked.
    pub closed spec fn on_table(self) -> T {
        *self.table
    }

    /// Walks the rows of `slice` in `table`. The start must be a row of the table,
    /// and the end must not be past its last row.
    pub fn from(table: &'a T, slice: RowRange<GenericRowId<T::Row>>) -> (r: Self)
        requires
            slice.start.i < table.row_count(),
            slice.end.i <= table.row_count(),
        ensures
            r.pos() == slice.start.i,
            r.end_pos() == slice.end.i,
            r.on_table() == *table,
    {
        CheckedIter { table, i: slice.start.i, end: slice.end.i }
    }

    /// The next row, or `None` once the end is reached.
    pub fn next(&mut self) -> (r: Option<CheckedRowId<'a, T>>)
        ensures
            final(self).end_pos() == old(self).end_pos(),
            final(self).on_table() == old(self).on_table(),
            old(self).pos() >= old(self).end_pos() ==> r is None && final(self).pos() == old(self).pos(),
            old(self).pos() < old(self).end_pos() ==> (r matches Some(x) && x.index() == old(self).pos()
                && x.on_table() == old(self).on_table() && final(self).pos() == old(self).pos() + 1),
    {
        proof {
            use_type_invariant(&*self);
        }
        if self.i >= self.end {
            None
        } else {
            let ret = CheckedRowId { i: self.i, table: self.table };
            self.i = self.i + 1;
            Some(ret)
        }
    }

    /// How many rows are left: exactly `end - pos`.
    pub fn size_hint(&self) -> (r: (usize, Option<usize>))
        requires
            self.pos() <= self.end_pos(),
        ensures
            r.0 == self.end_pos() - self.pos(),
            r.1 == Some((self.end_pos() - self.pos()) as usize),
    {
        let s = self.end - self.i;
        (s, Some(s))
    }
}

/// The keys of `m`, in increasing order.
fn sorted_keys(m: &BTreeMap<usize, ()>) -> (r: Vec<usize>)
    ensures
        forall|a: int, b: int| 0 <= a < b < r@.len() ==> r@[a] < r@[b],
        forall|k: usize| m@.contains_key(k) <==> r@.contains(k),
{
    broadcast use vstd::laws_cmp::group_laws_cmp;
    broadcast use vstd::std_specs::btree::axiom_key_obeys_cmp_spec_meaning;
    broadcast use vstd::std_specs::btree::axiom_increasing_seq_meaning;
    broadcast use vstd::std_specs::btree::axiom_spec_keys_iter;
    let ghost keys = vstd::std_specs::btree::spec_keys_iter(m).remaining();
    let mut out: Vec<usize> = Vec::new();
    for k in it: m.keys()
        invariant
            it.seq() == keys,
            out@.len() == it.index(),
            forall|j: int| 0 <= j < it.index() ==> out@[j] == *keys[j],
    {
        out.push(*k);
    }
    proof {
        assert(out@ =~= keys.unref());
        assert(vstd::laws_cmp::obeys_cmp::<&usize>());
        assert(vstd::std_specs::btree::increasing_seq(keys));
        assert forall|a: int, b: int| 0 <= a < b < out@.len() implies out@[a] < out@[b] by {
            assert((&keys[a]).cmp_spec(&keys[b]) is Less);
        }
        assert forall|k: usize| m@.contains_key(k) <==> out@.contains(k) by {
            assert(keys.unref().to_set().contains(k) <==> out@.contains(k));
        }
    }
    assert(out@.len() == keys.len());
    out
}

/// Walks the rows of a `CheckedIter`, skipping those marked as deleted.
pub struct ConsistentIter<'a, T: LockedTable> {
    rows: CheckedIter<'a, T>,
    deleted: JoinCore<usize>,
    removed: Ghost<Set<usize>>,
}

impl<'a, T: LockedTable> ConsistentIter<'a, T> {
    /// The deleted rows not yet passed are still to be joined, in increasing order.
    pub closed spec fn wf(self) -> bool {
        let rest = self.deleted.rest();
        &&& forall|a: int, b: int| 0 <= a < b < rest.len() ==> rest[a] < rest[b]
        &&& forall|j: int| 0 <= j < rest.len() ==> self.removed@.contains(#[trigger] rest[j])
        &&& forall|k: usize| #[trigger] self.removed@.contains(k) && k >= self.rows.pos() ==> rest.contains(k)
    }

    /// The next row to look at.
    pub closed spec fn pos(self) -> usize {
        self.rows.pos()
    }

    /// Where the walk stops (excluded).
    pub closed spec fn end_pos(self) -> usize {
        self.rows.end_pos()
    }

    /// The table walked.
    pub closed spec fn on_table(self) -> T {
        self.rows.on_table()
    }

    /// The rows that are skipped: those marked as deleted.
    pub closed spec fn skipped(self) -> Set<usize> {
        self.removed@
    }

    /// Walks `rows`, skipping the keys of `deleted`.
    pub fn new(rows: CheckedIter<'a, T>, deleted: &'a BTreeMap<usize, ()>) -> (r: Self)
        ensures
            r.wf(),
            r.pos() == rows.pos(),
            r.end_pos() == rows.end_pos(),
            r.on_table() == rows.on_table(),
            r.skipped() == deleted@.dom(),
    {
        let keys = sorted_keys(deleted);
        let r = ConsistentIter { rows, deleted: JoinCore::new(keys), removed: Ghost(deleted@.dom()) };
        proof {
            assert forall|k: usize| #[trigger] r.removed@.contains(k) && k >= r.rows.pos() implies r.deleted.rest().contains(k) by {
                assert(deleted@.contains_key(k));
            }
            assert forall|j: int| 0 <= j < r.deleted.rest().len() implies r.removed@.contains(#[trigger] r.deleted.rest()[j]) by {
                assert(keys@.contains(keys@[j]));
            }
        }
        r
    }

    /// The next row that is not marked as deleted, or `None` once the end is reached.
    pub fn next(&mut self) -> (r: Option<CheckedRowId<'a, T>>)
        requires
            old(self).wf(),
        ensures
            final(self).wf(),
            final(self).end_pos() == old(self).end_pos(),
            final(self).on_table() == old(self).on_table(),
            final(self).skipped() == old(self).skipped(),
            match r {
                None => forall|j: usize| old(self).pos() <= j < old(self).end_pos() ==> old(self).skipped().contains(j),
                Some(x) => {
                    &&& old(self).pos() <= x.index() < old(self).end_pos()
                    &&& !old(self).skipped().contains(x.index())
                    &&& forall|j: usize| old(self).pos() <= j < x.index() ==> old(self).skipped().contains(j)
                    &&& x.on_table() == old(self).on_table()
                    &&& final(self).pos() == x.index() + 1
                },
            },
    {
        loop
            invariant
                self.wf(),
                old(self).pos() <= self.pos(),
                self.end_pos() == old(self).end_pos(),
                self.on_table() == old(self).on_table(),
                self.skipped() == old(self).skipped(),
                forall|j: usize| old(self).pos() <= j < self.pos() ==> self.skipped().contains(j),
                self.pos() > old(self).pos() ==> self.pos() <= self.end_pos(),
            decreases self.end_pos() - self.pos(),
        {
            let ghost before = self.deleted.rest();
            let ghost removed = self.removed@;
            match self.rows.next() {
                None => {
                    return None;
                },
                Some(row) => {
                    let x = row.to_usize();
                    let step = self.deleted.cmp(&x);
                    let ghost after = self.deleted.rest();
                    let ghost d = before.len() - after.len();
                    proof {
                        assert forall|j: int| 0 <= j < d && before[j] != x implies before[j] < x by {
                            assert(ord_rel(x)(before[j], Ordering::Greater));
                        }
                        assert(forall|j: int| 0 <= j < after.len() ==> after[j] == before[j + d]);
                        assert forall|k: usize| #[trigger] removed.contains(k) && k >= self.rows.pos() implies after.contains(k) by {
                            let idx = before.index_of(k);
                            assert(before.contains(k));
                            assert(before[idx] == k);
                            assert(after[idx - d] == k);
                        }
                        assert forall|j: int| 0 <= j < after.len() implies removed.contains(#[trigger] after[j]) by {
                            assert(after[j] == before[j + d]);
                        }
                    }
                    match step {
                        Join::Match(_) => {
                            proof {
                                assert(before[d - 1] == x);
                            }
                        },
                        _ => {
                            proof {
                                if removed.contains(x) {
                                    let idx = before.index_of(x);
                                    assert(before.contains(x));
                                    assert(before[idx] == x);
                                    if idx < d {
                                        assert(ord_rel(x)(before[idx], Ordering::Greater));
                                    } else {
                                        assert(before[d] > x);
                                    }
                                }
                            }
                            return Some(row);
                        },
                    }
                },
            }
        }
    }
}

} // verus!

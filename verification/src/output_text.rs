//! The fixed text of the generated table modules: section labels, and the
//! section bodies (or their fixed beginnings) that do not depend on the table.

use vstd::prelude::*;

verus! {

pub const IMPORTS_LABEL: &'static str = "Imports & header data";

pub const IMPORTS: &'static str = "#[allow(unused_imports)]
use super::*;

use v11;
use self::v11::Universe;
use self::v11::domain::DomainName;
use self::v11::intern::{self, PBox, BiRef};
use self::v11::tables::*;
use self::v11::columns::*;
use self::v11::index::{CheckedIter, Checkable};
use self::v11::tracking::Flush;
#[allow(unused_imports)] use self::v11::storage::*;
#[allow(unused_imports)] use self::v11::joincore::*;
#[allow(unused_imports)] use self::v11::map_index::BTreeIndex;
#[allow(unused_imports)] use self::v11::Action;
#[allow(unused_imports)] use self::v11::tracking::Tracker;
#[allow(unused_imports)] use std::collections::VecDeque;
#[allow(unused_imports)] use std::cmp::Ordering;

pub const TABLE_NAME: TableName = TableName(\"";

pub const TABLE_LABEL: &'static str = "The `Table` struct";

pub const TABLE_STRUCT: &'static str = "#[derive(Default)]
pub struct Table {
    flush: Flush<Row>,
    free: FreeList<Row>,
}
impl TTable for Table {
    fn new() -> Self where Self: Sized { Default::default() }
    fn domain() -> DomainName where Self: Sized { TABLE_DOMAIN }
    fn name() -> TableName where Self: Sized { TABLE_NAME }
    fn guarantee() -> Guarantee where Self: Sized { GUARANTEES }
    fn prototype(&self) -> Box<TTable> { Box::new(Self::new()) }
    fn get_flush(&mut self) -> &mut ::std::any::Any { &mut self.flush }
}";

pub const ITER_LABEL: &'static str = "inconsistent iterators";

pub const ITER: &'static str = "impl<'u> Read<'u> {
    /// Returns a pre-checking iterator over each row in the table.
    pub fn iter(&self) -> CheckedIter<Self> {
        self.range(self.row_range())
    }
}
impl<'u> Write<'u> {
    /// Returns a pre-checking iterator over each row in the table.
    pub fn iter(&self) -> CheckedIter<Self> {
        self.range(self.row_range())
    }

    /// Returns an iterator over each row in the table. The `RowId`s are not
    /// pre-checked.
    pub fn iter_mut(&mut self) -> UncheckedIter<Row> {
        self.row_range().iter_slow()
    }
}";

pub const CONSISTENT_ITER_LABEL: &'static str = "consistent iterators";

pub const CONSISTENT_ITER: &'static str = "impl<'u> Read<'u> {
    /// Iterate over every non-deleted row.
    pub fn iter(&self) -> ConsistentIter<Self> {
        self.range(self.row_range())
    }
}
impl<'u> Write<'u> {
    /// Iterate over every non-deleted row.
    pub fn iter(&self) -> ConsistentIter<Self> {
        self.range(self.row_range())
    }

    /// Iterate over *all* rows, including deleted ones.
    pub fn iter_del(&self) -> UncheckedIter<Row> {
        self.row_range().iter_slow()
    }
}";

pub const COMMON_LABEL: &'static str = "methods common to both Read and Write";

pub const COMMON: &'static str = "impl<'u> Read<'u> {
    /// Iterate over a range of rows.
    pub fn range(&self, range: RowRange<RowId>) -> CheckedIter<Self> {
        CheckedIter::from(self, range)
    }
    /// The number of rows.
    pub fn len(&self) -> usize { self._table.len() }
    /// Explicitly drop the lock.
    pub fn close(self) {}
}
impl<'u> Write<'u> {
    /// Iterate over a range of rows.
    pub fn range(&self, range: RowRange<RowId>) -> CheckedIter<Self> {
        CheckedIter::from(self, range)
    }
    /// The number of rows.
    pub fn len(&self) -> usize { self._table.len() }
    /// Explicitly drop the lock.
    pub fn close(self) {}
}";

pub const CONSISTENT_COMMON: &'static str = "impl<'u> Read<'u> {
    /// Iterate over the non-deleted rows of a range.
    pub fn range(&self, range: RowRange<RowId>) -> ConsistentIter<Self> {
        ConsistentIter::new(CheckedIter::from(self, range), &self._table.free)
    }
    /// The number of rows, deleted ones included.
    pub fn len(&self) -> usize { self._table.len() }
    /// Explicitly drop the lock.
    pub fn close(self) {}
}
impl<'u> Write<'u> {
    /// Iterate over the non-deleted rows of a range.
    pub fn range(&self, range: RowRange<RowId>) -> ConsistentIter<Self> {
        ConsistentIter::new(CheckedIter::from(self, range), &self._table.free)
    }
    /// The number of rows, deleted ones included.
    pub fn len(&self) -> usize { self._table.len() }
    /// Explicitly drop the lock.
    pub fn close(self) {}
}";

pub const CHANGE_LABEL: &'static str = "Change tracking";

pub const CHANGE: &'static str = "impl<'a> Write<'a> {
    /// Propagate all changes.
    pub fn flush(self, universe: &Universe) {
        if !self._table.flush.need_flush() { return; }
        let mut flush = self._table.flush.extract();
        flush.flush(universe);
        self._table.flush.restore(flush);
    }
}";

pub const FAKE_FLUSH_LABEL: &'static str = "fake flush";

pub const FAKE_FLUSH: &'static str = "impl<'u> Write<'u> {
    /// This table does not need to be flushed; this method is here as a
    /// convenience for macros.
    pub fn flush(self, _universe: &Universe) {}
}";

pub const SORTED_EVENTS_LABEL: &'static str = "track sorted events";

pub const DROPS_LABEL: &'static str = "Extra drops";

pub const CONSISTENT_DROPS: &'static str = "/// Prevent moving out columns to improve `RefA` safety.
impl<'u> Drop for Read<'u> {
    fn drop(&mut self) {}
}";

pub const DROPS: &'static str = "/// Prevent moving out columns to improve `RefA` safety.
impl<'u> Drop for Read<'u> {
    fn drop(&mut self) {}
}

/// Prevent moving out columns to improve `MutA` safety.
impl<'u> Drop for Write<'u> {
    fn drop(&mut self) {}
}";

pub const EVENT_LOG_LABEL: &'static str = "event logging for consistent tables";

pub const EVENT_LOG: &'static str = "impl<'u> Write<'u> {
    fn event_cleared(&mut self) { self._table.flush.cleared() }
    fn event_add(&mut self, i: RowId) { self._table.flush.add(i) }
    fn event_del(&mut self, i: RowId) { self._table.flush.del(i) }
    fn event_add_reserve(&mut self, n: usize) { self._table.flush.add_reserve(n) }
    fn event_del_reserve(&mut self, n: usize) { self._table.flush.del_reserve(n) }
}";

pub const EVENT_IGNORE_LABEL: &'static str = "event ignoring for inconsistent_columns tables";

pub const EVENT_IGNORE: &'static str = "impl<'u> Write<'u> {
    #[inline] fn event_cleared(&mut self) {}
    #[inline] fn event_add(&mut self, _: RowId) {}
    #[inline] fn event_del(&mut self, _: RowId) {}
    #[inline] fn event_add_reserve(&mut self, _: usize) {}
    #[inline] fn event_del_reserve(&mut self, _: usize) {}
}";

pub const MUT_LABEL: &'static str = "mut methods safe for all guarantees";

pub const MUT: &'static str = "impl<'u> Write<'u> {
    /// Prepare the table for insertion of a specific amount of data.
    pub fn reserve(&mut self, n: usize) {
        self.reserve_columns(n);
        self.event_add_reserve(n);
    }

    /// Removes every row from the table.
    pub fn clear(&mut self) {
        self.clear_columns();
        self.event_cleared();
    }

    /// Add a Row to the end of the table, without checking the free-list.
    #[inline]
    fn push_end_unchecked(&mut self, row: Row) -> RowId {
        let rowid = self.push_only_unchecked(row);
        self.event_add(rowid);
        rowid
    }
}";

pub const ORD_LABEL: &'static str = "derive Ord for Row from RowRef";

pub const ORD_ROW: &'static str = "impl PartialOrd for Row {
    fn partial_cmp(&self, rhs: &Row) -> Option<Ordering> {
        Some(self.cmp(rhs))
    }
}

impl Ord for Row {
    fn cmp(&self, rhs: &Row) -> Ordering {
        self.as_ref().cmp(&rhs.as_ref())
    }
}

impl PartialEq for Row {
    fn eq(&self, rhs: &Row) -> bool {
        self.cmp(rhs) == Ordering::Equal
    }
}

impl Eq for Row {}

impl<'a> PartialOrd for RowRef<'a> {
    fn partial_cmp(&self, rhs: &RowRef) -> Option<Ordering> {
        Some(self.cmp(rhs))
    }
}

impl<'a> PartialEq for RowRef<'a> {
    fn eq(&self, rhs: &RowRef) -> bool {
        self.cmp(rhs) == Ordering::Equal
    }
}

impl<'a> Eq for RowRef<'a> {}";

pub const SORT_KEY_HEAD: &'static str = "impl<'a> Ord for RowRef<'a> {
    fn cmp(&self, rhs: &Self) -> Ordering {
        self.";

pub const SORT_KEY_MID: &'static str = ".cmp(&rhs.";

pub const SORT_KEY_TAIL: &'static str = ")
    }
}
";

pub const SWAP_LABEL: &'static str = "swapping";

pub const SWAP: &'static str = "impl<'u> Write<'u> {
    #[inline]
    fn swap_out_row(&mut self, i: RowId, row: &mut Row) {
        let i = i.check(self).to_usize();
        self.swap_out_columns(i, row);
    }

    #[inline]
    fn swap(&mut self, a: RowId, b: RowId) {
        let a = a.check(self).to_usize();
        let b = b.check(self).to_usize();
        self.swap_columns(a, b);
    }

    #[inline]
    fn truncate(&mut self, new_len: usize) {
        self.truncate_columns(new_len);
    }
}";

pub const MERGE_LABEL: &'static str = "merge functions";

pub const MERGE: &'static str = "impl<'u> Write<'u> {
    /// Remove all rows for which the predicate returns `false`.
    pub fn retain<F: FnMut(&Self, RowId) -> bool>(&mut self, mut f: F) {
        self.merge0(|me, rowid| {
            Action::Continue {
                remove: !f(me, rowid),
                add: ::std::iter::empty(),
            }
        })
    }

    /// Visits each row: keeps or removes it, and inserts the rows that the
    /// visitor adds after it, until the visitor stops.
    fn merge0<IT, F>(&mut self, f: F)
    where
        IT: IntoIterator<Item = Row>,
        F: FnMut(&Self, RowId) -> Action<IT>,
    {
        let rows = self.rug_merge(f);
        self.truncate(rows.kept);
        for row in rows.pending {
            self.push_end_unchecked(row);
        }
    }
}";

pub const VISIT_LABEL: &'static str = "visit";

pub const VISIT: &'static str = "impl<'u> Write<'u> {
    pub fn visit<IT, F>(&mut self, f: F)
    where
        IT: IntoIterator<Item=Row>,
        F: FnMut(&Self, RowId) -> Action<IT>
    {
        self.merge0(f)
    }
}";

pub const PUSH_SORTED_LABEL: &'static str = "row pushing for sorted tables";

pub const PUSH_SORTED: &'static str = "impl<'u> Write<'u> {
    /// Merge in a sorted (or sortable) Iterator of `Row`s.
    pub fn merge<IT, I>(&mut self, rows: I)
    where
        IT: Iterator<Item=Row>,
        I: Into<AssertSorted<IT>>,
    {
        self.merge_logged(rows, |_, _| ());
    }

    /// Merge in a Row, and return its RowId. This is an O(n) operation.
    pub fn merge_in_a_single_row(&mut self, row: Row) -> RowId {
        let mut got = None;
        self.merge_logged(Some(row), |_self, id| got = Some(id));
        got.expect(\"row not merged\")
    }
}";

pub const PUSH_LABEL: &'static str = "row pushing for unsorted tables";

pub const PUSH: &'static str = "impl<'u> Write<'u> {
    /// Populate the table with data from the provided iterator.
    pub fn push_all<I: ::std::iter::Iterator<Item=Row>>(&mut self, data: I) {
        self.reserve(data.size_hint().0);
        for row in data {
            self.push(row);
        }
    }

    /// Appends a single Row to the table, reusing a freed row if there is one.
    /// Returns its RowId.
    #[inline]
    pub fn push(&mut self, mut row: Row) -> RowId {
        let next = self._table.free.keys().next().cloned();
        if let Some(old) = next {
            self._table.free.remove(&old);
            self.event_add(old);
            self.swap_out_row(old, &mut row);
            old
        } else {
            self.push_end_unchecked(row)
        }
    }

    /// Returns the RowId of the next row that would be inserted.
    pub fn next_pushed(&self) -> RowId {
        self._table.free.keys().next().cloned().unwrap_or(RowId::from_usize(self.len()))
    }
}";

pub const LOAD_LABEL: &'static str = "Lock & Load";

pub const LOAD: &'static str = "use std::sync::{RwLock, RwLockReadGuard, RwLockWriteGuard};

impl Row {
    pub fn get_generic_table(universe: &Universe) -> &RwLock<GenericTable> {
        let domain_id = TABLE_DOMAIN.get_id();
        universe.get_generic_table(domain_id, TABLE_NAME)
    }
}

/// Locks the table for reading.
pub fn read(universe: &Universe) -> Read {
    convert_read_guard(Row::get_generic_table(universe).read().unwrap())
}

/// Locks the table for writing.
pub fn write(universe: &Universe) -> Write {
    convert_write_guard(Row::get_generic_table(universe).write().unwrap())
}

/// Registers the table with its domain.
pub fn register() {
    let table = GenericTable::new(Table::new());
    table.register();
}";

pub const TRACKING_LABEL: &'static str = "tracking";

pub const CONTEXT_LABEL: &'static str = "`context!` duck-type implementation";

pub const CONTEXT: &'static str = "use self::v11::context::Lockable;

unsafe impl<'u> Lockable<'u> for Write<'u> {
    const TYPE_NAME: &'static str = concat!(\"mut v11/table/\", TABLE_PATH);
    fn lock(universe: &'u Universe) -> Self { write(universe) }
}
unsafe impl<'u> Lockable<'u> for Read<'u> {
    const TYPE_NAME: &'static str = concat!(\"ref v11/table/\", TABLE_PATH);
    fn lock(universe: &'u Universe) -> Self { read(universe) }
}";

pub const SAVE_LABEL: &'static str = "Save";

pub const SAVE: &'static str = "use rustc_serialize::{Decoder, Decodable, Encoder, Encodable};

impl<'u> Read<'u> {
    /// Row-based encoding.
    pub fn encode_rows<E: Encoder>(&self, e: &mut E) -> Result<(), E::Error> {
        e.emit_struct(TABLE_NAME.0, 2, |e| {
            e.emit_struct_field(\"free_list\", 0, |e| self._table.free.encode(e))?;
            e.emit_struct_field(\"rows\", 1, |e| self.encode_each_row(e))
        })
    }
}

impl<'u> Write<'u> {
    /// Row-based decoding. Clears the table before reading, and clears the table if
    /// there is an error.
    pub fn decode_rows<D: Decoder>(&mut self, d: &mut D) -> Result<(), D::Error> {
        self.clear();
        let caught = self.decode_each_row(d);
        if caught.is_err() {
            self.clear();
        }
        caught
    }
}";

} // verus!

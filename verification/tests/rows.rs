use std::collections::BTreeMap;

use v11::index::{CheckedIter, ConsistentIter, GenericRowId, RowRange};
use v11::tables::{GetTableName, Guarantee, LockedTable, TableName};
use v11::domain::DomainName;

struct Ships;

struct ShipTable {
    rows: usize,
    deleted: BTreeMap<usize, ()>,
}

impl LockedTable for ShipTable {
    type Row = Ships;
    fn row_count(&self) -> usize {
        self.rows
    }
    fn len(&self) -> usize {
        self.rows
    }
    fn is_deleted(&self, idx: GenericRowId<Ships>) -> bool {
        self.deleted.contains_key(&idx.i)
    }
    fn delete_row(&mut self, idx: GenericRowId<Ships>) {
        self.deleted.insert(idx.i, ());
    }
}

fn row(i: usize) -> GenericRowId<Ships> {
    GenericRowId::new(i)
}

fn range(start: usize, end: usize) -> RowRange<GenericRowId<Ships>> {
    RowRange { start: row(start), end: row(end) }
}

#[test]
fn row_ids() {
    let r = row(23);
    assert_eq!(r.to_usize(), 23);
    assert_eq!(r.to_raw(), 23);
    assert_eq!(r.next().i, 24);
    assert_eq!(GenericRowId::<Ships>::from_usize(5).i, 5);
    assert_eq!(GenericRowId::<Ships>::default().i, usize::MAX);
    assert_eq!(r.uncheck().i, 23);
}

#[test]
fn row_ranges() {
    let r = range(10, 20);
    assert_eq!(r.len(), 10);
    assert!(r.contains(row(10)));
    assert!(r.contains(row(19)));
    assert!(!r.contains(row(20)));
    assert!(!r.contains(row(9)));
    assert_eq!(r.inner_index(row(15)), Some(5));
    assert_eq!(r.inner_index(row(25)), None);
    assert_eq!(r.offset(3).map(|x| x.i), Some(13));
    assert_eq!(r.offset(9).map(|x| x.i), Some(19));
    assert_eq!(r.offset(10).map(|x| x.i), None);
    assert_eq!(r.offset(11).map(|x| x.i), None);
    assert_eq!(r.offset(usize::MAX).map(|x| x.i), None);
    let e = RowRange::<GenericRowId<Ships>>::empty();
    assert_eq!(e.start.i, usize::MAX);
    assert_eq!(e.len(), 0);
}

#[test]
fn unchecked_iteration() {
    let mut it = range(3, 6).iter_slow();
    assert_eq!(it.size_hint(), (3, Some(3)));
    let mut seen = Vec::new();
    while let Some(r) = it.next() {
        seen.push(r.i);
    }
    assert_eq!(seen, vec![3, 4, 5]);
    assert!(it.next().is_none());
}

#[test]
fn checked_rows() {
    let table = ShipTable { rows: 4, deleted: BTreeMap::new() };
    let c = row(2).check(&table);
    assert_eq!(c.to_usize(), 2);
    assert_eq!(c.to_raw(), 2);
    assert_eq!(c.next().i, 3);
    assert_eq!(c.uncheck().i, 2);
    let other = ShipTable { rows: 3, deleted: BTreeMap::new() };
    assert_eq!(c.check(&other).to_usize(), 2);
}

#[test]
fn checked_iteration() {
    let table = ShipTable { rows: 5, deleted: BTreeMap::new() };
    let mut it = CheckedIter::from(&table, range(1, 4));
    assert_eq!(it.size_hint(), (3, Some(3)));
    let mut seen = Vec::new();
    while let Some(r) = it.next() {
        seen.push(r.to_usize());
    }
    assert_eq!(seen, vec![1, 2, 3]);
}

#[test]
fn consistent_iteration_skips_deleted_rows() {
    let mut table = ShipTable { rows: 8, deleted: BTreeMap::new() };
    table.delete_row(row(0));
    table.delete_row(row(3));
    table.delete_row(row(4));
    table.delete_row(row(7));
    assert!(table.is_deleted(row(3)));
    let mut it = ConsistentIter::new(CheckedIter::from(&table, range(0, 8)), &table.deleted);
    let mut seen = Vec::new();
    while let Some(r) = it.next() {
        seen.push(r.to_usize());
    }
    assert_eq!(seen, vec![1, 2, 5, 6]);
}

#[test]
fn consistent_iteration_with_nothing_deleted() {
    let table = ShipTable { rows: 3, deleted: BTreeMap::new() };
    let mut it = ConsistentIter::new(CheckedIter::from(&table, range(0, 3)), &table.deleted);
    let mut seen = Vec::new();
    while let Some(r) = it.next() {
        seen.push(r.to_usize());
    }
    assert_eq!(seen, vec![0, 1, 2]);
}

#[test]
fn row_id_comparisons() {
    let a = row(1);
    let b = row(2);
    assert!(a == a);
    assert!(a >= a);
    assert!(a <= a);
    assert!(a != b);
    assert!(b > a);
    assert!(a < b);
    assert_eq!(a.partial_cmp(&b), Some(std::cmp::Ordering::Less));
}

#[test]
fn offsets_stay_within_the_range() {
    let r = range(2, 5);
    assert_eq!(r.offset(2).map(|x| x.i), Some(4));
    assert_eq!(r.offset(3).map(|x| x.i), None);
    assert_eq!(r.offset(usize::MAX).map(|x| x.i), None);
}

#[test]
fn ranges_convert() {
    let r: RowRange<GenericRowId<Ships>> = RowRange::from(row(2)..row(5));
    assert_eq!((r.start.i, r.end.i), (2, 5));
    let back = r.into_range();
    assert_eq!((back.start.i, back.end.i), (2, 5));
}

struct NeverDeletes;

impl LockedTable for NeverDeletes {
    type Row = Ships;
    fn row_count(&self) -> usize {
        2
    }
    fn len(&self) -> usize {
        2
    }
    fn delete_row(&mut self, _idx: GenericRowId<Ships>) {}
}

#[test]
fn tables_that_never_delete_say_no() {
    let t = NeverDeletes;
    assert!(!t.is_deleted(row(0)));
    assert!(!t.is_deleted(row(1)));
}

struct TestName;
impl GetTableName for TestName {
    fn spec_get_domain() -> DomainName {
        Self::get_domain()
    }
    fn spec_get_name() -> TableName {
        Self::get_name()
    }
    fn spec_get_guarantee() -> Guarantee {
        Self::get_guarantee()
    }
    fn get_domain() -> DomainName {
        DomainName("TEST")
    }
    fn get_name() -> TableName {
        TableName("test_table")
    }
    fn get_guarantee() -> Guarantee {
        Guarantee::default()
    }
}

#[test]
fn test_formatting() {
    let gen: GenericRowId<TestName> = GenericRowId { i: 23, t: ::std::marker::PhantomData };
    assert_eq!("test_table[23]", gen.describe());
    let gen: GenericRowId<TestName> = GenericRowId { i: 0, t: ::std::marker::PhantomData };
    assert_eq!("test_table[0]", gen.describe());
    let gen: GenericRowId<TestName> = GenericRowId { i: 9010, t: ::std::marker::PhantomData };
    assert_eq!("test_table[9010]", gen.describe());
}

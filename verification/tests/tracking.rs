use std::cell::RefCell;

use v11::domain::{DomainName, GlobalProperties};
use v11::event::{self, Event, FallbackHandler, Function, RowRemover};
use v11::index::GenericRowId;
use v11::tables::{ColumnData, Guarantee, TTable, TableName};
use v11::tracking::{Flush, Select, SelectAny, SelectIter, SelectOwned, SelectRows, Tracker};
use v11::{InitRunner, Schema, Universe};

/// Runs no init functions: the tables here register none.
struct NoInits;
impl<T: Schema> InitRunner<T> for NoInits {
    fn run_init(&self, _init: T::Init, _universe: &Universe<T>) {}
}


#[derive(Debug, Clone, Copy, PartialEq)]
struct NoTable;
impl TTable for NoTable {
    fn spec_domain() -> DomainName {
        Self::domain()
    }
    fn spec_name() -> TableName {
        Self::name()
    }
    fn spec_guarantee() -> Guarantee {
        Self::guarantee()
    }
    fn new() -> Self {
        NoTable
    }
    fn domain() -> DomainName {
        DomainName("SEA")
    }
    fn name() -> TableName {
        TableName("ships")
    }
    fn guarantee() -> Guarantee {
        Guarantee { consistent: true, sorted: true, append_only: false }
    }
    fn prototype(&self) -> Self {
        NoTable
    }
}

#[derive(Debug, Clone, Copy, PartialEq)]
struct NoColumn;
impl ColumnData for NoColumn {
    fn holds_nothing(&self) -> bool {
        true
    }
    fn prototype(&self) -> Self {
        NoColumn
    }
}

/// A custom handler that records what it is handed.
struct Recorder {
    sorted: bool,
    seen: RefCell<Vec<usize>>,
}
impl Function for Recorder {
    fn sorting_needed(&self, _guarantee: Guarantee) -> bool {
        self.sorted
    }
    fn needs_sort(&self, _guarantee: Guarantee) -> bool {
        self.sorted
    }
    fn handle<S: Schema>(&self, _universe: &Universe<S>, _event: Event, rows: SelectAny) {
        if let Select::These(rows) = rows {
            self.seen.borrow_mut().push(rows.len());
        }
    }
}

struct S;
impl Schema for S {
    type Value = usize;
    type Table = NoTable;
    type Column = NoColumn;
    type Init = u8;
    type Handler = Recorder;
}

struct Ships;

fn rows(v: &[usize]) -> SelectOwned<Ships> {
    Select::These(v.iter().map(|&i| GenericRowId::new(i)).collect())
}

fn ids(s: &SelectOwned<Ships>) -> Vec<usize> {
    match s {
        Select::All => panic!("all"),
        Select::These(v) => v.iter().map(|r| r.i).collect(),
    }
}

/// A tracker that records the rows it is handed.
struct Log {
    interested: bool,
    sort: bool,
    got: RefCell<Vec<Vec<usize>>>,
}
impl Tracker for Log {
    type Foreign = Ships;
    fn considers(&self, _event: Event) -> bool {
        self.interested
    }
    fn wants_sorted(&self) -> bool {
        self.sort
    }
    fn consider(&self, _event: Event) -> bool {
        self.interested
    }
    fn sort(&self) -> bool {
        self.sort
    }
    fn handle<T: Schema>(
        &self,
        _universe: &Universe<T>,
        _event: Event,
        rows: SelectRows<Ships>,
        _handler: &FallbackHandler<T::Handler>,
    ) {
        if let Select::These(r) = rows {
            self.got.borrow_mut().push(r.iter().map(|x| x.i).collect());
        }
    }
}

fn log(interested: bool, sort: bool) -> Log {
    Log { interested, sort, got: RefCell::new(Vec::new()) }
}

struct Remover {
    removed: RefCell<usize>,
}
impl RowRemover for Remover {
    fn remove_rows<T: Schema>(&self, _universe: &Universe<T>, _event: Event, rows: SelectAny) {
        if let Select::These(r) = rows {
            *self.removed.borrow_mut() += r.len();
        }
    }
}

fn universe() -> Universe<S> {
    let mut globals: GlobalProperties<S> = GlobalProperties::new();
    Universe::new(&mut globals, &[], &NoInits)
}

fn guarantee() -> Guarantee {
    NoTable::guarantee()
}

#[test]
fn remapping() {
    let mut flush: Flush<Ships, Log> = Flush::new();
    assert!(!flush.has_remapping());
    assert!(flush.trackers_is_empty());
    let pairs = [(GenericRowId::new(1), GenericRowId::new(10)), (GenericRowId::new(2), GenericRowId::new(20)), (GenericRowId::new(1), GenericRowId::new(11))];
    flush.set_remapping(&pairs);
    assert!(flush.has_remapping());
    assert_eq!(flush.remap(GenericRowId::new(1)).map(|r| r.i), Some(11));
    assert_eq!(flush.remap(GenericRowId::new(2)).map(|r| r.i), Some(20));
    assert_eq!(flush.remap(GenericRowId::new(3)).map(|r| r.i), None);
    flush.set_remapping(&pairs[1..2]);
    assert_eq!(flush.remap(GenericRowId::new(1)).map(|r| r.i), None);
    flush.set_identity_remap();
    assert_eq!(flush.remap(GenericRowId::new(7)).map(|r| r.i), Some(7));
    flush.set_remapping(&pairs);
    assert_eq!(flush.remap(GenericRowId::new(2)).map(|r| r.i), Some(2));
}

#[test]
fn flush_sorts_once_for_the_first_tracker_that_asks() {
    let mut u = universe();
    assert!(matches!(u.event_handlers.get(event::delete()), FallbackHandler::Null(_)));
    u.event_handlers.add(event::delete(), FallbackHandler::Delete(event::DeleteHandler));
    let remover = Remover { removed: RefCell::new(0) };
    let mut flush: Flush<Ships, Log> = Flush::new();
    flush.register_tracker(log(true, false), guarantee());
    flush.register_tracker(log(false, true), guarantee());
    flush.register_tracker(log(true, true), guarantee());
    flush.register_tracker(log(true, false), guarantee());
    assert!(!flush.trackers_is_empty());
    let out = flush.do_flush(&u, &remover, guarantee(), event::delete(), false, true, rows(&[5, 1, 3]), true);
    assert_eq!(ids(&out), vec![1, 3, 5]);
    assert_eq!(*remover.removed.borrow(), 3);
}

#[test]
fn flush_leaves_rows_alone_when_nobody_sorts() {
    let u = universe();
    let remover = Remover { removed: RefCell::new(0) };
    let mut flush: Flush<Ships, Log> = Flush::new();
    flush.register_tracker(log(true, false), guarantee());
    let out = flush.do_flush(&u, &remover, Guarantee::default(), event::create(), true, false, rows(&[5, 1, 3]), false);
    assert_eq!(ids(&out), vec![5, 1, 3]);
    assert_eq!(*remover.removed.borrow(), 0);
    let all = flush.do_flush(&u, &remover, guarantee(), event::create(), true, false, Select::All, false);
    assert!(all.is_all());
}

#[test]
fn handler_run_sorts_when_needed() {
    let u = universe();
    let remover = Remover { removed: RefCell::new(0) };
    let h: FallbackHandler<Recorder> = FallbackHandler::Custom(Recorder { sorted: true, seen: RefCell::new(Vec::new()) });
    assert!(h.needs_sort(Guarantee::default()));
    h.run(&u, &remover, Guarantee::default(), event::update(), rows(&[2, 1]));
    if let FallbackHandler::Custom(r) = &h {
        assert_eq!(*r.seen.borrow(), vec![2]);
    }
    let d: FallbackHandler<Recorder> = FallbackHandler::Delete(event::DeleteHandler);
    assert!(d.needs_sort(guarantee()));
    assert!(!d.needs_sort(Guarantee::default()));
    d.run(&u, &remover, guarantee(), event::delete(), rows(&[4, 2, 9]));
    assert_eq!(*remover.removed.borrow(), 3);
}

#[test]
fn select_iteration() {
    let owned = rows(&[4, 8]);
    let slice = owned.as_slice();
    let mut it: SelectIter<std::vec::IntoIter<GenericRowId<Ships>>, Ships> = slice.iter_or_all(Vec::new().into_iter());
    assert_eq!(it.next().map(|r| r.i), Some(4));
    assert_eq!(it.next().map(|r| r.i), Some(8));
    assert!(it.next().is_none());
    let all: SelectRows<Ships> = Select::All;
    let mut it = all.iter_or_all_with(|| vec![GenericRowId::new(1)].into_iter());
    assert_eq!(it.next().map(|r| r.i), Some(1));
    assert!(it.next().is_none());
}

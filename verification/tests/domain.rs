use v11::domain::{DomainName, GlobalProperties};
use v11::tables::{ColumnData, Guarantee, TTable, TableName};
use v11::Schema;

#[derive(Debug, Clone, Copy, PartialEq)]
struct NoTable;
impl TTable for NoTable {
    fn spec_domain() -> DomainName {
        Self::domain()
    }
    fn spec_name() -> TableName {
        Self::name()
    }
    fn spec_guarantee() -> Guarantee {
        Self::guarantee()
    }
    fn new() -> Self {
        NoTable
    }
    fn domain() -> DomainName {
        DomainName("TEST")
    }
    fn name() -> TableName {
        TableName("nothing")
    }
    fn guarantee() -> Guarantee {
        Guarantee::default()
    }
    fn prototype(&self) -> Self {
        NoTable
    }
}

#[derive(Debug, Clone, Copy, PartialEq)]
struct NoColumn;
impl ColumnData for NoColumn {
    fn holds_nothing(&self) -> bool {
        true
    }
    fn prototype(&self) -> Self {
        NoColumn
    }
}

struct S;
impl Schema for S {
    type Value = usize;
    type Table = NoTable;
    type Column = NoColumn;
    type Init = u8;
    type Handler = ();
}

#[test]
fn register_domains_once() {
    let mut globals: GlobalProperties<S> = GlobalProperties::new();
    const A: DomainName = DomainName("A");
    const B: DomainName = DomainName("B");
    A.register(&mut globals);
    B.register(&mut globals);
    assert_eq!(A.get_id(&globals).0, 0);
    assert_eq!(B.get_id(&globals).0, 1);
}

#[test]
fn register_domain_multiple_times() {
    let mut globals: GlobalProperties<S> = GlobalProperties::new();
    const MULTI_REG: DomainName = DomainName("MULTI_REG");
    const SINGLE: DomainName = DomainName("SINGLE");
    MULTI_REG.register(&mut globals);
    MULTI_REG.register(&mut globals);
    SINGLE.register(&mut globals);
    assert_eq!(globals.domains.len(), 2);
    assert_eq!(SINGLE.get_id(&globals).0, 1);
}

#[test]
fn register_twin_domain_names() {
    // Two `DomainName` values with the same text are the same domain.
    let mut globals: GlobalProperties<S> = GlobalProperties::new();
    DomainName("ALIAS").register(&mut globals);
    DomainName("ALIAS").register(&mut globals);
    assert_eq!(globals.domains.len(), 1);
    assert_eq!(globals.find_domain(DomainName("ALIAS")), Some(0));
    assert_eq!(globals.find_domain(DomainName("OTHER")), None);
}

#[test]
fn locking_a_domain() {
    let mut globals: GlobalProperties<S> = GlobalProperties::new();
    let d = DomainName("LOCKME");
    d.register(&mut globals);
    assert!(!d.locked(&globals));
    d.set_locked(&mut globals, true);
    assert!(d.locked(&globals));
    d.set_locked(&mut globals, false);
    assert!(!d.locked(&globals));
}

#[test]
fn empty_registry() {
    let mut globals: GlobalProperties<S> = GlobalProperties::new();
    assert!(globals.is_empty());
    DomainName("X").register(&mut globals);
    assert!(!globals.is_empty());
}

use v11::domain::{DomainName, FmtProducer, GlobalProperties};
use v11::property::{Prop, PropertyName};
use v11::tables::{ColumnData, Guarantee, TTable, TableName};
use v11::{InitRunner, Schema, Universe};

/// Runs no init functions: the tables here register none.
struct NoInits;
impl<T: Schema> InitRunner<T> for NoInits {
    fn run_init(&self, _init: T::Init, _universe: &Universe<T>) {}
}


#[derive(Debug, Clone, Copy, PartialEq)]
struct NoTable;
impl TTable for NoTable {
    fn spec_domain() -> DomainName {
        Self::domain()
    }
    fn spec_name() -> TableName {
        Self::name()
    }
    fn spec_guarantee() -> Guarantee {
        Self::guarantee()
    }
    fn new() -> Self {
        NoTable
    }
    fn domain() -> DomainName {
        DomainName("TEST")
    }
    fn name() -> TableName {
        TableName("nothing")
    }
    fn guarantee() -> Guarantee {
        Guarantee::default()
    }
    fn prototype(&self) -> Self {
        NoTable
    }
}

#[derive(Debug, Clone, Copy, PartialEq)]
struct NoColumn;
impl ColumnData for NoColumn {
    fn holds_nothing(&self) -> bool {
        true
    }
    fn prototype(&self) -> Self {
        NoColumn
    }
}

struct S;
impl Schema for S {
    type Value = usize;
    type Table = NoTable;
    type Column = NoColumn;
    type Init = u8;
    type Handler = ();
}

#[test]
fn add_domain() {
    const ADD_OLD: DomainName = DomainName("ADD_OLD");
    const ADD_NEW: DomainName = DomainName("ADD_NEW");
    let mut globals: GlobalProperties<S> = GlobalProperties::new();
    let mut add_old_val = Prop::<usize>::new(ADD_OLD, PropertyName("ADD_OLD/ADD_OLD_VAL"));
    let mut add_new_val = Prop::<usize>::new(ADD_NEW, PropertyName("ADD_NEW/ADD_NEW_VAL"));
    ADD_OLD.register(&mut globals);
    add_old_val.init(&mut globals, FmtProducer { domain: ADD_OLD, name: add_old_val.name, init: 9 });
    let mut universe = Universe::new(&mut globals, &[ADD_OLD], &NoInits);
    assert_eq!(universe.get(&add_old_val), 9);
    ADD_NEW.register(&mut globals);
    add_new_val.init(&mut globals, FmtProducer { domain: ADD_NEW, name: add_new_val.name, init: 10 });
    let inits = universe.add_domain(&mut globals, ADD_NEW, &NoInits);
    assert!(inits.is_empty());
    assert_eq!(universe.get(&add_new_val), 10);
}

#[test]
fn add_domain_twice_changes_nothing() {
    const D: DomainName = DomainName("D");
    let mut globals: GlobalProperties<S> = GlobalProperties::new();
    let mut p = Prop::<usize>::new(D, PropertyName("D/P"));
    D.register(&mut globals);
    p.init(&mut globals, FmtProducer { domain: D, name: p.name, init: 3 });
    let mut universe = Universe::new(&mut globals, &[], &NoInits);
    assert!(universe.get_domain_names().is_empty());
    universe.add_domain(&mut globals, D, &NoInits);
    universe.set(&p, 5);
    universe.add_domain(&mut globals, D, &NoInits);
    assert_eq!(universe.get(&p), 5);
    assert_eq!(universe.get_domain_names().len(), 1);
    assert_eq!(universe.get_domain_names()[0].0, "D");
}

#[test]
fn add_properties_catches_up() {
    const D: DomainName = DomainName("LATE");
    let mut globals: GlobalProperties<S> = GlobalProperties::new();
    D.register(&mut globals);
    let mut universe = Universe::new(&mut globals, &[D], &NoInits);
    // The domain is locked now; unlock it to register one more property.
    D.set_locked(&mut globals, false);
    let mut late = Prop::<usize>::new(D, PropertyName("LATE/LATE"));
    late.init(&mut globals, FmtProducer { domain: D, name: late.name, init: 42 });
    assert!(!universe.has_property(&late));
    universe.add_properties(&globals);
    assert_eq!(universe.get(&late), 42);
}

#[test]
fn new_universe_locks_its_domains() {
    const A: DomainName = DomainName("A");
    const B: DomainName = DomainName("B");
    let mut globals: GlobalProperties<S> = GlobalProperties::new();
    A.register(&mut globals);
    B.register(&mut globals);
    let u = Universe::new(&mut globals, &[B], &NoInits);
    assert!(!A.locked(&globals));
    assert!(B.locked(&globals));
    assert!(!u.domains[0].is_set());
    assert!(u.domains[1].is_set());
    let names = u.get_domain_names();
    assert_eq!(names.len(), 1);
    assert_eq!(names[0].0, "B");
}

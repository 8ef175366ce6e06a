use v11::domain::{DomainName, FmtProducer, GlobalProperties};
use v11::property::{Prop, PropertyName};
use v11::tables::{ColumnData, Guarantee, TTable, TableName};
use v11::{InitRunner, Schema, Universe};

/// Runs no init functions: the tables here register none.
struct NoInits;
impl<T: Schema> InitRunner<T> for NoInits {
    fn run_init(&self, _init: T::Init, _universe: &Universe<T>) {}
}


#[derive(Debug, Clone, Copy, PartialEq)]
struct NoTable;
impl TTable for NoTable {
    fn spec_domain() -> DomainName {
        Self::domain()
    }
    fn spec_name() -> TableName {
        Self::name()
    }
    fn spec_guarantee() -> Guarantee {
        Self::guarantee()
    }
    fn new() -> Self {
        NoTable
    }
    fn domain() -> DomainName {
        DomainName("TEST")
    }
    fn name() -> TableName {
        TableName("nothing")
    }
    fn guarantee() -> Guarantee {
        Guarantee::default()
    }
    fn prototype(&self) -> Self {
        NoTable
    }
}

#[derive(Debug, Clone, Copy, PartialEq)]
struct NoColumn;
impl ColumnData for NoColumn {
    fn holds_nothing(&self) -> bool {
        true
    }
    fn prototype(&self) -> Self {
        NoColumn
    }
}

/// A universe whose single property holds another universe.
struct S;
impl Schema for S {
    type Value = Nest;
    type Table = NoTable;
    type Column = NoColumn;
    type Init = u8;
    type Handler = ();
}

struct Nest(Option<Universe<S>>);
impl Clone for Nest {
    fn clone(&self) -> Self {
        // Only the empty value is ever cloned (it is the initial value).
        Nest(None)
    }
}

#[test]
fn nested_test() {
    const TEST: DomainName = DomainName("TEST");
    let mut globals: GlobalProperties<S> = GlobalProperties::new();
    let mut nest = Prop::<Nest>::new(TEST, PropertyName("TEST/NEST"));
    TEST.register(&mut globals);
    nest.init(&mut globals, FmtProducer { domain: TEST, name: nest.name, init: Nest(None) });
    let inner = Universe::new(&mut globals, &[], &NoInits);
    let mut outer = Universe::new(&mut globals, &[TEST], &NoInits);
    *outer.write(&nest) = Nest(Some(inner));
    assert!(outer.read(&nest).0.is_some());
}

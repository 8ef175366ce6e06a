use v11::domain::{DomainName, GlobalProperties};
use v11::storage::BoolCol;
use v11::tables::{ColumnData, ColumnMeta, GenericColumn, GenericTable, Guarantee, TTable, TableName};
use v11::columns::TCol;
use v11::intern::{name_error, NameError};
use std::cell::RefCell;
use v11::{InitRunner, Schema, Universe};

/// Records the init functions it runs.
struct Recorder(RefCell<Vec<u8>>);
impl InitRunner<S> for Recorder {
    fn run_init(&self, init: u8, universe: &Universe<S>) {
        assert!(!universe.domains.is_empty());
        self.0.borrow_mut().push(init);
    }
}


const DOCTEST: DomainName = DomainName("DOCTEST");

/// The concrete object of the `documentation` table.
#[derive(Debug, Clone, Copy, PartialEq)]
struct Documentation;
impl TTable for Documentation {
    fn spec_domain() -> DomainName {
        Self::domain()
    }
    fn spec_name() -> TableName {
        Self::name()
    }
    fn spec_guarantee() -> Guarantee {
        Self::guarantee()
    }
    fn new() -> Self {
        Documentation
    }
    fn domain() -> DomainName {
        DOCTEST
    }
    fn name() -> TableName {
        TableName("documentation")
    }
    fn guarantee() -> Guarantee {
        Guarantee { consistent: true, sorted: false, append_only: false }
    }
    fn prototype(&self) -> Self {
        Documentation
    }
}

/// A table whose name is not valid.
struct BadName;
impl TTable for BadName {
    fn spec_domain() -> DomainName {
        Self::domain()
    }
    fn spec_name() -> TableName {
        Self::name()
    }
    fn spec_guarantee() -> Guarantee {
        Self::guarantee()
    }
    fn new() -> Self {
        BadName
    }
    fn domain() -> DomainName {
        DOCTEST
    }
    fn name() -> TableName {
        TableName("123")
    }
    fn guarantee() -> Guarantee {
        Guarantee::default()
    }
    fn prototype(&self) -> Self {
        BadName
    }
}

/// Column storage of the test tables.
#[derive(Debug)]
struct Bools(BoolCol);
impl ColumnData for Bools {
    fn holds_nothing(&self) -> bool {
        self.0.len() == 0
    }
    fn prototype(&self) -> Self {
        Bools(BoolCol::new())
    }
}

struct S;
impl Schema for S {
    type Value = usize;
    type Table = Documentation;
    type Column = Bools;
    type Init = u8;
    type Handler = ();
}

fn bool_column(name: &str) -> GenericColumn<Bools> {
    GenericColumn {
        meta: ColumnMeta { name: name.to_string(), stored_type_name: "bool".to_string(), version: 0 },
        data: Bools(BoolCol::new()),
    }
}

fn documentation() -> GenericTable<Documentation, Bools, u8> {
    let t = GenericTable::new(Documentation);
    let mut t = t.add_column(bool_column("documented_column")).add_column(bool_column("undocumented_column"));
    t.add_init(7);
    t
}

#[test]
fn v11_macro_dump() {
    let mut globals: GlobalProperties<S> = GlobalProperties::new();
    DOCTEST.register(&mut globals);
    documentation().register(&mut globals);
    let ran = Recorder(RefCell::new(Vec::new()));
    let universe = Universe::new(&mut globals, &[DOCTEST], &ran);
    assert_eq!(*ran.0.borrow(), vec![7]);
    let t = universe.get_generic_table(DOCTEST.get_id(&globals), TableName("documentation"));
    assert_eq!(t.columns.len(), 2);
    assert_eq!(universe.domain_inits(&globals, DOCTEST), vec![7]);
}

#[test]
fn an_instance_gets_empty_columns() {
    let mut globals: GlobalProperties<S> = GlobalProperties::new();
    DOCTEST.register(&mut globals);
    let mut t = documentation();
    t.get_column_mut("documented_column", "bool").0.push(true);
    t.register(&mut globals);
    let ran = Recorder(RefCell::new(Vec::new()));
    let universe = Universe::new(&mut globals, &[DOCTEST], &ran);
    let t = universe.get_generic_table(DOCTEST.get_id(&globals), TableName("documentation"));
    assert_eq!(t.columns[0].data.0.len(), 0);
    assert_eq!(t.columns[1].data.0.len(), 0);
}

#[test]
fn bad_table_name() {
    assert_eq!(name_error(BadName::name().0), Some(NameError::Invalid));
    assert_eq!(name_error(Documentation::name().0), None);
}

#[test]
fn table_info() {
    let t = documentation();
    assert_eq!(t.info(), "documentation: documented_column:[bool] undocumented_column:[bool]");
    assert!(t.has_column("documented_column"));
    assert!(!t.has_column("missing"));
    assert_eq!(t.get_inits(), vec![7]);
}

#[test]
fn prototype_is_equivalent() {
    let t = documentation();
    let mut t = t;
    t.get_column_mut("documented_column", "bool").0.push(true);
    let p = t.prototype();
    assert_eq!(p.columns[0].data.0.len(), 0);
    assert_eq!(p.columns[1].data.0.len(), 0);
    assert_eq!(p.get_inits(), vec![7]);
    assert!(t.equivalent(&p));
    assert!(p.equivalent(&t));
    let other = GenericTable::new(Documentation).add_column(bool_column("documented_column"));
    assert!(!t.equivalent(&other));
}

#[test]
fn registering_a_table_twice() {
    let mut globals: GlobalProperties<S> = GlobalProperties::new();
    DOCTEST.register(&mut globals);
    documentation().register(&mut globals);
    documentation().register(&mut globals);
    assert_eq!(globals.domains[0].tables.len(), 1);
    assert_eq!(globals.domains[0].tables_registration_order.len(), 1);
}

#[test]
fn column_access() {
    let mut t = documentation();
    {
        let c = t.get_column_mut("undocumented_column", "bool");
        c.0.push(true);
    }
    assert_eq!(t.get_column("undocumented_column", "bool").0.len(), 1);
    assert_eq!(t.get_column("documented_column", "bool").0.len(), 0);
}

#[test]
fn the_first_of_two_columns_of_one_name_is_served() {
    let mut t: GenericTable<Documentation, Bools, u8> = GenericTable::new(Documentation).add_column(bool_column("twin"));
    t.get_column_mut("twin", "bool").0.push(true);
    t.columns.push(bool_column("twin"));
    t.get_column_mut("twin", "bool").0.push(false);
    assert_eq!(t.get_column("twin", "bool").0.len(), 2);
    assert_eq!(t.columns[1].data.0.len(), 0);
}

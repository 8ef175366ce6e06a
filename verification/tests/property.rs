use std::collections::HashMap;
use std::sync::{Arc, RwLock};

use v11::domain::{DomainName, FmtProducer, GlobalProperties};
use v11::property::{Prop, PropertyName};
use v11::tables::{ColumnData, Guarantee, TTable, TableName};
use v11::{InitRunner, Schema, Universe};

/// Runs no init functions: the tables here register none.
struct NoInits;
impl<T: Schema> InitRunner<T> for NoInits {
    fn run_init(&self, _init: T::Init, _universe: &Universe<T>) {}
}


#[derive(Debug, Clone, Copy, PartialEq)]
struct NoTable;
impl TTable for NoTable {
    fn spec_domain() -> DomainName {
        Self::domain()
    }
    fn spec_name() -> TableName {
        Self::name()
    }
    fn spec_guarantee() -> Guarantee {
        Self::guarantee()
    }
    fn new() -> Self {
        NoTable
    }
    fn domain() -> DomainName {
        DomainName("TEST")
    }
    fn name() -> TableName {
        TableName("nothing")
    }
    fn guarantee() -> Guarantee {
        Guarantee::default()
    }
    fn prototype(&self) -> Self {
        NoTable
    }
}

#[derive(Debug, Clone, Copy, PartialEq)]
struct NoColumn;
impl ColumnData for NoColumn {
    fn holds_nothing(&self) -> bool {
        true
    }
    fn prototype(&self) -> Self {
        NoColumn
    }
}

#[derive(PartialEq, Eq, Clone, Copy, Debug)]
pub enum BestColors {
    #[allow(dead_code)]
    Purple,
    Pink,
}

/// The values of the test domain's properties.
#[derive(Debug, Clone, PartialEq)]
enum Val {
    Usize(usize),
    I64(i64),
    Dict(HashMap<String, i32>),
    Color(BestColors),
}

struct S;
impl Schema for S {
    type Value = Val;
    type Table = NoTable;
    type Column = NoColumn;
    type Init = u8;
    type Handler = ();
}

const TEST: DomainName = DomainName("TEST");

fn prop(name: &'static str) -> Prop<Val> {
    Prop::new(TEST, PropertyName(name))
}

fn producer(name: &'static str, init: Val) -> FmtProducer<Val> {
    FmtProducer { domain: TEST, name: PropertyName(name), init }
}

struct Props {
    explicit_init: Prop<Val>,
    standard_property: Prop<Val>,
    prop: Prop<Val>,
    map: Prop<Val>,
    best_colors: Prop<Val>,
}

fn register(globals: &mut GlobalProperties<S>) -> Props {
    TEST.register(globals);
    let mut p = Props {
        explicit_init: prop("TEST/EXPLICIT_INIT"),
        standard_property: prop("TEST/STANDARD_PROPERTY"),
        prop: prop("TEST/PROP"),
        map: prop("TEST/MAP"),
        best_colors: prop("TEST/BEST_COLORS"),
    };
    p.explicit_init.init(globals, producer("TEST/EXPLICIT_INIT", Val::Usize(0)));
    p.standard_property.init(globals, producer("TEST/STANDARD_PROPERTY", Val::I64(0)));
    p.prop.init(globals, producer("TEST/PROP", Val::Usize(0)));
    p.map.init(globals, producer("TEST/MAP", Val::Dict(HashMap::new())));
    p.best_colors.init(globals, producer("TEST/BEST_COLORS", Val::Color(BestColors::Pink)));
    p
}

fn test_universe() -> (GlobalProperties<S>, Props, Universe<S>) {
    let mut globals = GlobalProperties::new();
    let props = register(&mut globals);
    let universe = Universe::new(&mut globals, &[TEST], &NoInits);
    (globals, props, universe)
}

#[test]
fn void_universe1() {
    let (mut globals, _props, _universe) = test_universe();
    Universe::new(&mut globals, &[], &NoInits);
}

#[test]
fn void_universe2() {
    let mut globals: GlobalProperties<S> = GlobalProperties::new();
    let u = Universe::new(&mut globals, &[], &NoInits);
    assert_eq!(u.domains.len(), 0);
}

#[test]
fn explicit_init() {
    let (_g, props, universe) = test_universe();
    assert_eq!(&Val::Usize(0), universe.read(&props.explicit_init));
}

#[test]
fn standard_property_usage() {
    let (_g, props, mut universe) = test_universe();
    assert_eq!(&Val::I64(0), universe.read(&props.standard_property));
    universe.set(&props.standard_property, Val::I64(20));
    assert_eq!(&Val::I64(20), universe.read(&props.standard_property));
}

#[test]
fn property_basics() {
    let (_g, props, mut universe) = test_universe();
    // default value
    assert!(universe.read(&props.prop) == &Val::Usize(0));
    // set should work
    universe.set(&props.prop, Val::Usize(99));
    assert!(universe.read(&props.prop) == &Val::Usize(99));
}

fn hashmaps_with_threads() {
    let (_g, props, universe) = test_universe();
    let map = props.map;
    let universe: Arc<RwLock<Universe<S>>> = universe.guard();
    {
        let mut universe = universe.write().unwrap();
        match universe.write(&map) {
            Val::Dict(m) => {
                m.insert("foo".to_string(), 90);
            },
            _ => panic!("not a map"),
        }
    }
    let read_foo = |universe: &Universe<S>| -> i32 {
        match universe.read(&map) {
            Val::Dict(m) => *m.get("foo").unwrap(),
            _ => panic!("not a map"),
        }
    };
    {
        let universe = universe.read().unwrap();
        assert_eq!(read_foo(&universe), 90);
    }
    let other_handle = {
        let universe = universe.clone();
        move || {
            let universe = universe.read().unwrap();
            let got = match universe.read(&map) {
                Val::Dict(m) => *m.get("foo").unwrap(),
                _ => panic!("not a map"),
            };
            assert_eq!(got, 90);
        }
    };
    other_handle();
    {
        let universe = universe.read().unwrap();
        assert_eq!(read_foo(&universe), 90);
    }
}

#[test]
fn hashmaps_many_times() {
    for _ in 0..100 {
        hashmaps_with_threads();
    }
}

#[test]
fn very_best_color() {
    let (_g, props, universe) = test_universe();
    assert_eq!(universe.read(&props.best_colors), &Val::Color(BestColors::Pink));
}

#[test]
fn swap_returns_old_value() {
    let (_g, props, mut universe) = test_universe();
    let old = universe.swap(&props.prop, Val::Usize(7));
    assert_eq!(old, Val::Usize(0));
    assert_eq!(universe.read(&props.prop), &Val::Usize(7));
    // another property is untouched
    assert_eq!(universe.read(&props.explicit_init), &Val::Usize(0));
}

#[test]
fn property_init_is_idempotent() {
    let mut globals: GlobalProperties<S> = GlobalProperties::new();
    TEST.register(&mut globals);
    let mut p = prop("TEST/ONCE");
    p.init(&mut globals, producer("TEST/ONCE", Val::Usize(1)));
    let gid = p.index.global_index.0;
    p.init(&mut globals, producer("TEST/ONCE", Val::Usize(2)));
    assert_eq!(p.index.global_index.0, gid);
    assert_eq!(globals.gid2producer.len(), 1);
    assert_eq!(globals.gid2producer[0].init, Val::Usize(1));
}

#[test]
fn property_names_are_checked() {
    assert!(prop("TEST/GOOD").check_name());
    assert!(!prop("TEST").check_name());
    assert!(!prop("OTHER/NAME").check_name());
    assert!(!prop("TEST/").check_name());
    assert!(!prop("TEST/_x").check_name());
    assert!(!prop("TEST/a-b").check_name());
}


#[test]
fn test_aliased() {
    // Three properties of the same names: `foo` is the primary, `bar` is never
    // registered, `baz` is registered again.
    const ALIAS: DomainName = DomainName("ALIAS");
    let mut globals: GlobalProperties<S> = GlobalProperties::new();
    let mut foo = Prop::<Val>::new(ALIAS, PropertyName("ALIAS/BLAH"));
    let mut bar = Prop::<Val>::new(ALIAS, PropertyName("ALIAS/BLAH"));
    let mut baz = Prop::<Val>::new(ALIAS, PropertyName("ALIAS/BLAH"));
    let blah = || FmtProducer { domain: ALIAS, name: PropertyName("ALIAS/BLAH"), init: Val::I64(0) };
    ALIAS.register(&mut globals);
    foo.init(&mut globals, blah());
    ALIAS.register(&mut globals);
    baz.init(&mut globals, blah());
    bar.sync_alias(&globals);
    {
        // All should be constructable
        let _verse = Universe::new(&mut globals, &[ALIAS], &NoInits);
        let _verse = Universe::new(&mut globals, &[ALIAS], &NoInits);
        let _verse = Universe::new(&mut globals, &[ALIAS], &NoInits);
    }
    let mut verse = Universe::new(&mut globals, &[ALIAS], &NoInits);
    *verse.write(&foo) = Val::I64(10);
    assert_eq!(*verse.read(&baz), Val::I64(10));
    assert_eq!(*verse.read(&bar), Val::I64(10));
}

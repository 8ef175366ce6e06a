//! A column-based in-memory database for data-oriented design, with its
//! registry, property store and column storage verified.

pub mod intern;
pub mod domain;
pub mod tables;
pub mod property;

use vstd::prelude::*;
use std::sync::{Arc, RwLock};

verus! {

#[verifier::external_type_specification]
#[verifier::external_body]
#[verifier::reject_recursive_types(T)]
pub struct ExRwLock<T: ?Sized>(RwLock<T>);

/// `RwLock::new`: a lock around `t`.
#[verifier::external_body]
fn rwlock_new<T>(t: T) -> RwLock<T> {
    RwLock::new(t)
}

/// Bounds that all storable types must satisfy.
pub trait Storable: Sized {}

impl<T: Send + Sync + 'static> Storable for T {}

/// Return value for functions passed to a table's `visit`.
#[derive(Debug, Clone)]
pub enum Action<IT> {
    /// If `remove` is true, then this row is removed. Any items yielded by `add`
    /// are inserted prior to the next item; they will not be visited.
    Continue { remove: bool, add: IT },
    /// Stop visiting rows. They will not be removed.
    Break,
}

/// The types a universe is built from: the value type of its properties, the
/// concrete table objects, the column storage, the table init handles and the
/// custom event handlers.
pub trait Schema: Sized {
    type Value: Clone;
    type Table: tables::TTable;
    type Column: tables::ColumnData;
    type Init: Copy;
    type Handler;
}

/// A context object whose reference is passed around everywhere: it holds an
/// instance of each of its domains.
pub struct Universe<S: Schema> {
    pub domains: Vec<domain::MaybeDomain<S>>,
    pub event_handlers: event::EventHandlers<S::Handler>,
}

/// The table description type of a schema.
pub type TableOf<S> = tables::GenericTable<
    <S as Schema>::Table,
    <S as Schema>::Column,
    <S as Schema>::Init,
>;

/// Runs the init functions that tables register: each is code of the table that
/// registered it, and gets the universe that has just received the table's domain.
pub trait InitRunner<S: Schema> {
    fn run_init(&self, init: S::Init, universe: &Universe<S>);
}

impl<S: Schema> Universe<S> {
    /// Runs `inits`, in order, on the universe.
    pub fn run_inits<R: InitRunner<S>>(&self, inits: &Vec<S::Init>, runner: &R) {
        let mut i: usize = 0;
        while i < inits.len()
            invariant
                0 <= i <= inits@.len(),
            decreases inits@.len() - i,
        {
            runner.run_init(inits[i], self);
            i = i + 1;
        }
    }

    /// A universe with an instance of each of the listed (registered) domains, which
    /// get locked, and the default event handlers. The init functions of each listed
    /// domain's tables (see `domain_inits`) are then run on it, domain by domain.
    pub fn new<R: InitRunner<S>>(
        globals: &mut domain::GlobalProperties<S>,
        domains: &[domain::DomainName],
        runner: &R,
    ) -> (r: Universe<S>)
        requires
            old(globals).wf(),
            forall|k: int| 0 <= k < domains@.len() ==> old(globals).is_registered(#[trigger] domains@[k]@),
        ensures
            final(globals).wf(),
            domain::locked_listed(*old(globals), *final(globals), domains@),
            domain::fresh_domains(*final(globals), domains@, r.domains@),
            r.event_handlers.wf(),
            forall|i: int|
                0 <= i < event::MAX_EVENT_TYPES ==> event::handler_kind(#[trigger] r.event_handlers.fallbacks@[i]) == 0,
    {
        let u = Universe {
            domains: Self::get_domains(globals, domains),
            event_handlers: event::EventHandlers::new(),
        };
        let mut k: usize = 0;
        while k < domains.len()
            invariant
                0 <= k <= domains@.len(),
                globals.wf(),
                domain::locked_listed(*old(globals), *globals, domains@),
                domain::fresh_domains(*globals, domains@, u.domains@),
                forall|j: int| 0 <= j < domains@.len() ==> old(globals).is_registered(#[trigger] domains@[j]@),
            decreases domains@.len() - k,
        {
            let d = domains[k];
            proof {
                assert(globals.domain_names() =~= old(globals).domain_names());
                assert(domains@[k as int]@ == d@);
                let dix = globals.domain_index(d@)->0;
                assert(domain::listed(domains@, globals.domain_names()[dix]));
                assert(u.domains@[dix] is Domain);
            }
            let inits = u.domain_inits(globals, d);
            u.run_inits(&inits, runner);
            k = k + 1;
        }
        u
    }

    /// Converts to a form shareable with other threads.
    pub fn guard(self) -> Arc<RwLock<Universe<S>>> {
        Arc::new(rwlock_new(self))
    }

    /// The table named `name` of the domain with id `domain_id`, which the universe
    /// must hold.
    pub fn get_generic_table(&self, domain_id: domain::DomainId, name: tables::TableName) -> (r: &TableOf<S>)
        requires
            domain_id.0 < self.domains@.len(),
            self.domains@[domain_id.0 as int] matches domain::MaybeDomain::Domain(inst) && exists|t: int|
                0 <= t < inst.tables@.len() && inst.tables@[t].name@ == name@,
        ensures
            r.name@ == name@,
            self.domains@[domain_id.0 as int] matches domain::MaybeDomain::Domain(inst) && exists|t: int|
                0 <= t < inst.tables@.len() && inst.tables@[t] == *r,
    {
        match &self.domains[domain_id.0] {
            domain::MaybeDomain::Domain(inst) => inst.get_generic_table(name),
            domain::MaybeDomain::Unset(_) => vstd::pervasive::unreached(),
        }
    }
}

/// Wraps `t` in a lock.
pub fn guard_value<T>(t: T) -> RwLock<T> {
    rwlock_new(t)
}

} // verus!
pub mod event;
pub mod avec;
pub mod bimap;
pub mod joincore;
pub mod columns;
pub mod storage;
pub mod index;
pub mod any_slice;
pub mod tracking;
pub mod context;
pub mod de_help;
pub mod test;
pub mod macro_table;
pub mod expander;
pub mod assert_sorted;
pub mod map_index;
pub mod parse;
pub mod output;
pub mod output_laws;
pub mod output_text;
pub mod invocations;
pub mod modifier_table;

//! Domains: single-level namespaces that universes pick from. Each property
//! name is in the form "domain/property_name". Before being added to a
//! universe, a domain must be registered with `DomainName::register`.

use vstd::prelude::*;
use crate::intern::{str_eq, valid_name};
use crate::property::{GlobalPropertyId, PropertyName, DomainedPropertyId};
use crate::tables::{ColumnData, TableName};
use crate::{Schema, TableOf, Universe};
use vstd::string::StringExecFns;

verus! {

/// The name of a domain.
#[derive(Debug, Clone, Copy)]
pub struct DomainName(pub &'static str);

impl View for DomainName {
    type V = Seq<char>;

    open spec fn view(&self) -> Seq<char> {
        self.0@
    }
}

/// The position of a domain among all registered domains.
#[derive(Debug, Clone, Copy)]
pub struct DomainId(pub usize);

/// Which of `table`'s registration outcomes holds, given the registry before and after.
pub open spec fn table_registered<S: Schema>(
    before: GlobalProperties<S>,
    after: GlobalProperties<S>,
    table: TableOf<S>,
) -> bool {
    &&& after.did2name == before.did2name
    &&& after.gid2name == before.gid2name
    &&& after.gid2producer == before.gid2producer
    &&& before.domain_index(table.domain@) matches Some(dix) && {
        let od = before.domains@[dix];
        let nd = after.domains@[dix];
        &&& after.domains@.len() == before.domains@.len()
        &&& forall|x: int| 0 <= x < before.domains@.len() && x != dix ==> after.domains@[x] == before.domains@[x]
        &&& match index_of(od.table_names(), table.name@) {
            Some(_) => nd == od,
            None => {
                &&& nd.tables@ == od.tables@.push(table)
                &&& nd.tables_registration_order@ == od.tables_registration_order@.push(table.name)
                &&& nd.id == od.id
                &&& nd.name == od.name
                &&& nd.property_members == od.property_members
                &&& nd.name2did == od.name2did
                &&& nd.locked == od.locked
            },
        }
    }
}

/// The position of the first element of `s` equal to `x`, if any.
pub open spec fn index_of<A>(s: Seq<A>, x: A) -> Option<int> {
    if exists|i: int| 0 <= i < s.len() && s[i] == x {
        Some(choose|i: int| 0 <= i < s.len() && s[i] == x)
    } else {
        None
    }
}

/// No element of `s` occurs twice.
pub open spec fn distinct<A>(s: Seq<A>) -> bool {
    forall|i: int, j: int| 0 <= i < s.len() && 0 <= j < s.len() && i != j ==> s[i] != s[j]
}

/// In a sequence without repeats, an element found at `i` is the one `index_of` names.
pub proof fn lemma_index_of_distinct<A>(s: Seq<A>, i: int)
    requires
        distinct(s),
        0 <= i < s.len(),
    ensures
        index_of(s, s[i]) == Some(i),
{
    assert(0 <= i < s.len() && s[i] == s[i]);
}

/// Produces the initial value of a property in each new domain instance.
pub trait Producer<V> {
    fn produce(&self) -> V;
    fn domain(&self) -> DomainName;
    fn name(&self) -> PropertyName;
}

/// The producer of a registered property: it hands out clones of the
/// property's initial value.
pub struct FmtProducer<V> {
    pub domain: DomainName,
    pub name: PropertyName,
    pub init: V,
}

impl<V: Clone> Producer<V> for FmtProducer<V> {
    fn produce(&self) -> (r: V)
        ensures
            vstd::pervasive::cloned(self.init, r),
    {
        self.init.clone()
    }

    fn domain(&self) -> (r: DomainName)
        ensures
            r == self.domain,
    {
        self.domain
    }

    fn name(&self) -> (r: PropertyName)
        ensures
            r == self.name,
    {
        self.name
    }
}

/// What the registry knows of a domain.
pub struct DomainInfo<S: Schema> {
    pub id: DomainId,
    pub name: DomainName,
    /// The global ids of the domain's properties, in registration order.
    pub property_members: Vec<GlobalPropertyId>,
    /// The domain's tables, in registration order.
    pub tables: Vec<TableOf<S>>,
    pub tables_registration_order: Vec<TableName>,
    /// For each property name of the domain, its position among `property_members`.
    pub name2did: Vec<(PropertyName, DomainedPropertyId)>,
    pub locked: bool,
}

impl<S: Schema> DomainInfo<S> {
    /// The property names of `name2did`, as characters.
    pub open spec fn did_names(&self) -> Seq<Seq<char>> {
        self.name2did@.map_values(|p: (PropertyName, DomainedPropertyId)| p.0@)
    }

    /// The table names, as characters, in registration order.
    pub open spec fn table_names(&self) -> Seq<Seq<char>> {
        self.tables_registration_order@.map_values(|t: TableName| t@)
    }

    pub fn locked(&self) -> (r: bool)
        ensures
            r == self.locked,
    {
        self.locked
    }

    pub fn set_locked(&mut self, locked: bool)
        ensures
            *final(self) == (DomainInfo { locked, ..*old(self) }),
    {
        self.locked = locked;
    }
}

/// The registry of domains and properties shared by the universes of a program.
pub struct GlobalProperties<S: Schema> {
    /// The name of each property, by global id.
    pub gid2name: Vec<PropertyName>,
    /// The producer of each property, by global id.
    pub gid2producer: Vec<FmtProducer<S::Value>>,
    /// The registered domains, by id.
    pub domains: Vec<DomainInfo<S>>,
    /// The name of each domain, by id.
    pub did2name: Vec<DomainName>,
}

impl<S: Schema> GlobalProperties<S> {
    /// The names of the domains, as characters, by id.
    pub open spec fn domain_names(&self) -> Seq<Seq<char>> {
        self.did2name@.map_values(|d: DomainName| d@)
    }

    /// The names of the properties, as characters, by global id.
    pub open spec fn gid_names(&self) -> Seq<Seq<char>> {
        self.gid2name@.map_values(|p: PropertyName| p@)
    }

    /// The id of the domain named `name`, if it is registered.
    pub open spec fn domain_index(&self, name: Seq<char>) -> Option<int> {
        index_of(self.domain_names(), name)
    }

    pub open spec fn is_registered(&self, name: Seq<char>) -> bool {
        self.domain_index(name) is Some
    }

    /// The global id of the property named `name`, if it is registered.
    pub open spec fn gid_of(&self, name: Seq<char>) -> Option<int> {
        index_of(self.gid_names(), name)
    }

    /// The well-formedness of one domain's record.
    pub open spec fn wf_domain(&self, i: int) -> bool {
        let d = self.domains@[i];
        &&& d.id.0 == i
        &&& d.name == self.did2name@[i]
        &&& forall|k: int|
            0 <= k < d.property_members@.len() ==> #[trigger] d.property_members@[k].0
                < self.gid2name@.len()
        &&& distinct(d.did_names())
        &&& forall|t: int|
            0 <= t < d.name2did@.len() ==> {
                let (pn, did) = #[trigger] d.name2did@[t];
                &&& did.0 < d.property_members@.len()
                &&& self.gid_names()[d.property_members@[did.0 as int].0 as int] == pn@
            }
        &&& d.tables@.len() == d.tables_registration_order@.len()
        &&& forall|t: int|
            0 <= t < d.tables@.len() ==> #[trigger] d.tables@[t].name
                == d.tables_registration_order@[t]
        &&& distinct(d.table_names())
    }

    /// The registry's invariant.
    pub open spec fn wf(&self) -> bool {
        &&& self.domains@.len() == self.did2name@.len()
        &&& distinct(self.domain_names())
        &&& self.gid2name@.len() == self.gid2producer@.len()
        &&& distinct(self.gid_names())
        &&& forall|i: int| 0 <= i < self.domains@.len() ==> #[trigger] self.wf_domain(i)
    }

    /// An empty registry.
    pub fn new() -> (r: Self)
        ensures
            r.wf(),
            r.domains@.len() == 0,
            r.gid2name@.len() == 0,
    {
        let r = GlobalProperties {
            gid2name: Vec::new(),
            gid2producer: Vec::new(),
            domains: Vec::new(),
            did2name: Vec::new(),
        };
        assert(r.domain_names() =~= Seq::empty());
        assert(r.gid_names() =~= Seq::empty());
        r
    }

    /// Whether nothing has been registered.
    pub fn is_empty(&self) -> (r: bool)
        ensures
            r == (self.domains@.len() == 0 && self.gid2producer@.len() == 0),
    {
        self.domains.len() == 0 && self.gid2producer.len() == 0
    }

    /// The id of the domain named `name`, if it is registered.
    pub fn find_domain(&self, name: DomainName) -> (r: Option<usize>)
        requires
            self.wf(),
        ensures
            match r {
                Some(i) => self.domain_index(name@) == Some(i as int),
                None => self.domain_index(name@) is None,
            },
    {
        let mut i: usize = 0;
        while i < self.did2name.len()
            invariant
                self.wf(),
                0 <= i <= self.did2name@.len(),
                forall|j: int| 0 <= j < i ==> self.domain_names()[j] != name@,
            decreases self.did2name@.len() - i,
        {
            if str_eq(self.did2name[i].0, name.0) {
                proof {
                    lemma_index_of_distinct(self.domain_names(), i as int);
                }
                return Some(i);
            }
            i = i + 1;
        }
        None
    }

    /// The global id of the property named `name`, if it is registered.
    pub fn find_gid(&self, name: PropertyName) -> (r: Option<usize>)
        requires
            self.wf(),
        ensures
            match r {
                Some(i) => self.gid_of(name@) == Some(i as int),
                None => self.gid_of(name@) is None,
            },
    {
        let mut i: usize = 0;
        while i < self.gid2name.len()
            invariant
                self.wf(),
                0 <= i <= self.gid2name@.len(),
                forall|j: int| 0 <= j < i ==> self.gid_names()[j] != name@,
            decreases self.gid2name@.len() - i,
        {
            if str_eq(self.gid2name[i].0, name.0) {
                proof {
                    lemma_index_of_distinct(self.gid_names(), i as int);
                }
                return Some(i);
            }
            i = i + 1;
        }
        None
    }
}

impl DomainName {
    /// Registers the domain. Registering a domain that is already registered
    /// (by this or an equal name) changes nothing.
    pub fn register<S: Schema>(&self, globals: &mut GlobalProperties<S>)
        requires
            old(globals).wf(),
            valid_name(self.0),
        ensures
            final(globals).wf(),
            final(globals).is_registered(self@),
            old(globals).is_registered(self@) ==> *final(globals) == *old(globals),
            !old(globals).is_registered(self@) ==> {
                let d = final(globals).domains@.last();
                &&& final(globals).domains@.len() == old(globals).domains@.len() + 1
                &&& final(globals).domains@.drop_last() == old(globals).domains@
                &&& final(globals).did2name@ == old(globals).did2name@.push(*self)
                &&& final(globals).gid2name == old(globals).gid2name
                &&& final(globals).gid2producer == old(globals).gid2producer
                &&& d.id.0 == old(globals).domains@.len()
                &&& d.name == *self
                &&& d.property_members@.len() == 0
                &&& d.tables@.len() == 0
                &&& d.name2did@.len() == 0
                &&& !d.locked
            },
    {
        if globals.find_domain(*self).is_some() {
            return;
        }
        let next = globals.domains.len();
        let info = DomainInfo {
            id: DomainId(next),
            name: *self,
            property_members: Vec::new(),
            tables: Vec::new(),
            tables_registration_order: Vec::new(),
            name2did: Vec::new(),
            locked: false,
        };
        assert(info.did_names() =~= Seq::empty());
        assert(info.table_names() =~= Seq::empty());
        let ghost old_g = *globals;
        globals.domains.push(info);
        globals.did2name.push(*self);
        proof {
            assert(globals.domain_names() =~= old_g.domain_names().push(self@));
            assert(globals.gid_names() =~= old_g.gid_names());
            assert forall|i: int| 0 <= i < globals.domains@.len() implies #[trigger] globals.wf_domain(i) by {
                if i < next {
                    assert(old_g.wf_domain(i));
                    assert(globals.domains@[i] == old_g.domains@[i]);
                }
            }
            lemma_index_of_distinct(globals.domain_names(), next as int);
            assert(globals.domains@.drop_last() =~= old_g.domains@);
        }
    }

    /// The id of this registered domain.
    pub fn get_id<S: Schema>(&self, globals: &GlobalProperties<S>) -> (r: DomainId)
        requires
            globals.wf(),
            globals.is_registered(self@),
        ensures
            globals.domain_index(self@) == Some(r.0 as int),
    {
        DomainId(globals.find_domain(*self).unwrap())
    }

    /// Whether this registered domain is locked: a locked domain has been
    /// instantiated by a universe and takes no new properties or tables.
    pub fn locked<S: Schema>(&self, globals: &GlobalProperties<S>) -> (r: bool)
        requires
            globals.wf(),
            globals.is_registered(self@),
        ensures
            globals.domain_index(self@) matches Some(i) && r == globals.domains@[i].locked,
    {
        let i = globals.find_domain(*self).unwrap();
        globals.domains[i].locked()
    }

    /// Locks or unlocks this registered domain.
    pub fn set_locked<S: Schema>(&self, globals: &mut GlobalProperties<S>, is_locked: bool)
        requires
            old(globals).wf(),
            old(globals).is_registered(self@),
        ensures
            final(globals).wf(),
            old(globals).domain_index(self@) matches Some(i) && final(globals).domains@
                == old(globals).domains@.update(
                i,
                DomainInfo { locked: is_locked, ..old(globals).domains@[i] },
            ),
            final(globals).did2name == old(globals).did2name,
            final(globals).gid2name == old(globals).gid2name,
            final(globals).gid2producer == old(globals).gid2producer,
    {
        let i = globals.find_domain(*self).unwrap();
        globals.set_domain_locked(i, is_locked);
    }
}

impl<S: Schema> GlobalProperties<S> {
    /// Locks or unlocks the domain with id `i`.
    pub fn set_domain_locked(&mut self, i: usize, is_locked: bool)
        requires
            old(self).wf(),
            i < old(self).domains@.len(),
        ensures
            final(self).wf(),
            final(self).domains@ == old(self).domains@.update(
                i as int,
                DomainInfo { locked: is_locked, ..old(self).domains@[i as int] },
            ),
            final(self).did2name == old(self).did2name,
            final(self).gid2name == old(self).gid2name,
            final(self).gid2producer == old(self).gid2producer,
    {
        let ghost old_s = *self;
        let mut d = self.domains.remove(i);
        d.set_locked(is_locked);
        self.domains.insert(i, d);
        proof {
            assert(self.domains@ =~= old_s.domains@.update(
                i as int,
                DomainInfo { locked: is_locked, ..old_s.domains@[i as int] },
            ));
            assert forall|j: int| 0 <= j < self.domains@.len() implies #[trigger] self.wf_domain(j) by {
                assert(old_s.wf_domain(j));
                assert(self.domains@[j].did_names() == old_s.domains@[j].did_names());
                assert(self.domains@[j].table_names() == old_s.domains@[j].table_names());
            }
        }
    }
}

impl<S: Schema> GlobalProperties<S> {
    /// The position in `domains[dix].name2did` of the property named `name`.
    pub open spec fn did_slot(&self, dix: int, name: Seq<char>) -> Option<int> {
        index_of(self.domains@[dix].did_names(), name)
    }

    /// Where the registry has put the property `name` of the domain `domain`:
    /// the domain's id, the property's position in the domain, and its global id.
    pub open spec fn registered_index(&self, domain: Seq<char>, name: Seq<char>) -> Option<
        (int, int, int),
    > {
        match self.domain_index(domain) {
            None => None,
            Some(dix) => match (self.did_slot(dix, name), self.gid_of(name)) {
                (Some(t), Some(gid)) => Some((dix, self.domains@[dix].name2did@[t].1.0 as int, gid)),
                _ => None,
            },
        }
    }

    /// The position in `name2did` of the property `name` of domain `dix`.
    pub fn find_did_slot(&self, dix: usize, name: PropertyName) -> (r: Option<usize>)
        requires
            self.wf(),
            dix < self.domains@.len(),
        ensures
            match r {
                Some(t) => self.did_slot(dix as int, name@) == Some(t as int),
                None => self.did_slot(dix as int, name@) is None,
            },
    {
        let d = &self.domains[dix];
        let mut t: usize = 0;
        proof {
            assert(self.wf_domain(dix as int));
        }
        while t < d.name2did.len()
            invariant
                self.wf(),
                self.wf_domain(dix as int),
                *d == self.domains@[dix as int],
                0 <= t <= d.name2did@.len(),
                forall|j: int| 0 <= j < t ==> d.did_names()[j] != name@,
            decreases d.name2did@.len() - t,
        {
            if str_eq(d.name2did[t].0.0, name.0) {
                proof {
                    lemma_index_of_distinct(d.did_names(), t as int);
                }
                return Some(t);
            }
            t = t + 1;
        }
        None
    }

    /// Records the property `name` as a member of the domain with id `dix`,
    /// registering it globally (with `producer`) if no property of that name is
    /// registered yet. Returns the property's position in the domain and its global id.
    pub fn add_property(&mut self, dix: usize, name: PropertyName, producer: FmtProducer<S::Value>) -> (r: (usize, usize))
        requires
            old(self).wf(),
            dix < old(self).domains@.len(),
            old(self).gid2name@.len() < usize::MAX,
            old(self).domains@[dix as int].property_members@.len() < usize::MAX,
        ensures
            final(self).wf(),
            final(self).registered_index(old(self).domain_names()[dix as int], name@) == Some(
                (dix as int, r.0 as int, r.1 as int),
            ),
            final(self).did2name == old(self).did2name,
            final(self).domains@.len() == old(self).domains@.len(),
            forall|j: int|
                0 <= j < old(self).domains@.len() && j != dix ==> final(self).domains@[j]
                    == old(self).domains@[j],
            ({
                let od = old(self).domains@[dix as int];
                let nd = final(self).domains@[dix as int];
                &&& nd.property_members@ == od.property_members@.push(GlobalPropertyId(r.1))
                &&& nd.id == od.id
                &&& nd.name == od.name
                &&& nd.locked == od.locked
                &&& nd.tables == od.tables
                &&& nd.tables_registration_order == od.tables_registration_order
                &&& match old(self).did_slot(dix as int, name@) {
                    Some(t) => nd.name2did == od.name2did && r.0 == od.name2did@[t].1.0,
                    None => nd.name2did@ == od.name2did@.push((name, DomainedPropertyId(r.0)))
                        && r.0 == od.property_members@.len(),
                }
            }),
            match old(self).gid_of(name@) {
                Some(g) => r.1 == g && final(self).gid2name == old(self).gid2name
                    && final(self).gid2producer == old(self).gid2producer,
                None => r.1 == old(self).gid2name@.len() && final(self).gid2name@
                    == old(self).gid2name@.push(name) && final(self).gid2producer@
                    == old(self).gid2producer@.push(producer),
            },
    {
        let ghost old_s = *self;
        let slot = self.find_did_slot(dix, name);
        let gid = match self.find_gid(name) {
            Some(g) => g,
            None => {
                let g = self.gid2name.len();
                self.gid2name.push(name);
                self.gid2producer.push(producer);
                proof {
                    assert(self.gid_names() =~= old_s.gid_names().push(name@));
                }
                g
            },
        };
        proof {
            assert(old_s.wf_domain(dix as int));
        }
        let mut d = self.domains.remove(dix);
        let ghost od = d;
        let did = match slot {
            Some(t) => d.name2did[t].1.0,
            None => {
                let did = d.property_members.len();
                d.name2did.push((name, DomainedPropertyId(did)));
                did
            },
        };
        d.property_members.push(GlobalPropertyId(gid));
        self.domains.insert(dix, d);
        proof {
            let nd = self.domains@[dix as int];
            assert(nd == d);
            assert(self.gid_names().len() == self.gid2name@.len());
            assert(forall|k: int| 0 <= k < old_s.gid_names().len() ==> self.gid_names()[k] == old_s.gid_names()[k]);
            assert(self.gid_names()[gid as int] == name@);
            assert forall|j: int| 0 <= j < self.domains@.len() implies #[trigger] self.wf_domain(j) by {
                assert(old_s.wf_domain(j));
                if j != dix {
                    assert(self.domains@[j] == old_s.domains@[j]);
                    let dj = self.domains@[j];
                    assert forall|t: int| 0 <= t < dj.name2did@.len() implies ({
                        let (pn, did) = #[trigger] dj.name2did@[t];
                        &&& did.0 < dj.property_members@.len()
                        &&& self.gid_names()[dj.property_members@[did.0 as int].0 as int] == pn@
                    }) by {
                        let (pn, did) = dj.name2did@[t];
                        assert(dj.property_members@[did.0 as int].0 < old_s.gid2name@.len());
                    }
                } else {
                    assert forall|k: int| 0 <= k < nd.property_members@.len() implies #[trigger] nd.property_members@[k].0 < self.gid2name@.len() by {
                        if k < od.property_members@.len() {
                            assert(nd.property_members@[k] == od.property_members@[k]);
                        }
                    }
                    match slot {
                        Some(t) => {
                            assert(nd.did_names() == od.did_names());
                        },
                        None => {
                            assert(nd.did_names() =~= od.did_names().push(name@));
                            assert forall|a: int, b: int| 0 <= a < nd.did_names().len() && 0 <= b < nd.did_names().len() && a != b implies nd.did_names()[a] != nd.did_names()[b] by {
                                if a == od.did_names().len() as int {
                                    assert(od.did_names()[b] != name@);
                                } else if b == od.did_names().len() as int {
                                    assert(od.did_names()[a] != name@);
                                }
                            }
                        },
                    }
                    assert forall|t: int| 0 <= t < nd.name2did@.len() implies ({
                        let (pn, did) = #[trigger] nd.name2did@[t];
                        &&& did.0 < nd.property_members@.len()
                        &&& self.gid_names()[nd.property_members@[did.0 as int].0 as int] == pn@
                    }) by {
                        if t < od.name2did@.len() {
                            assert(nd.name2did@[t] == od.name2did@[t]);
                            let (pn, pdid) = od.name2did@[t];
                            assert(nd.property_members@[pdid.0 as int] == od.property_members@[pdid.0 as int]);
                            assert(od.property_members@[pdid.0 as int].0 < old_s.gid2name@.len());
                        }
                    }
                    assert(nd.table_names() == od.table_names());
                }
            }
            assert(self.domain_names() == old_s.domain_names());
            assert(self.wf());
            assert(self.wf_domain(dix as int));
            lemma_index_of_distinct(self.domain_names(), dix as int);
            match slot {
                Some(t) => {
                    assert(self.did_slot(dix as int, name@) == Some(t as int));
                },
                None => {
                    lemma_index_of_distinct(nd.did_names(), od.name2did@.len() as int);
                },
            }
        }
        (did, gid)
    }
}

impl<S: Schema> GlobalProperties<S> {
    /// What registering `table` needs: its domain is registered and not locked, and a
    /// table already registered under its name has the same structure.
    pub open spec fn can_register_table(&self, table: TableOf<S>) -> bool {
        self.domain_index(table.domain@) matches Some(dix) && {
            let d = self.domains@[dix];
            &&& !d.locked
            &&& index_of(d.table_names(), table.name@) matches Some(t) ==> crate::tables::equivalent_tables(
                table,
                d.tables@[t],
            )
        }
    }

    /// Registers `table` on its domain. Registering a table again, with the same
    /// structure, changes nothing.
    pub fn register_table(&mut self, table: TableOf<S>)
        requires
            old(self).wf(),
            old(self).can_register_table(table),
        ensures
            final(self).wf(),
            table_registered(*old(self), *final(self), table),
    {
        let ghost old_s = *self;
        let dix = self.find_domain(table.domain).unwrap();
        proof {
            assert(self.wf_domain(dix as int));
        }
        let mut t: usize = 0;
        let n = self.domains[dix].tables_registration_order.len();
        while t < n
            invariant
                self.wf(),
                *self == old_s,
                old_s.domain_index(table.domain@) == Some(dix as int),
                self.wf_domain(dix as int),
                dix < self.domains@.len(),
                n == self.domains@[dix as int].tables_registration_order@.len(),
                0 <= t <= n,
                forall|j: int| 0 <= j < t ==> self.domains@[dix as int].table_names()[j] != table.name@,
            decreases n - t,
        {
            if self.domains[dix].tables_registration_order[t].same(&table.name) {
                proof {
                    lemma_index_of_distinct(self.domains@[dix as int].table_names(), t as int);
                }
                return;
            }
            t = t + 1;
        }
        let mut d = self.domains.remove(dix);
        let ghost od = d;
        let name = table.name;
        d.tables_registration_order.push(name);
        d.tables.push(table);
        self.domains.insert(dix, d);
        proof {
            assert(d.table_names() =~= od.table_names().push(name@));
            assert forall|a: int, b: int| 0 <= a < d.table_names().len() && 0 <= b < d.table_names().len() && a != b implies d.table_names()[a] != d.table_names()[b] by {
                if a == od.table_names().len() as int {
                    assert(od.table_names()[b] != name@);
                } else if b == od.table_names().len() as int {
                    assert(od.table_names()[a] != name@);
                }
            }
            assert(d.did_names() == od.did_names());
            assert forall|j: int| 0 <= j < self.domains@.len() implies #[trigger] self.wf_domain(j) by {
                assert(old_s.wf_domain(j));
                if j != dix {
                    assert(self.domains@[j] == old_s.domains@[j]);
                } else {
                    assert(self.domains@[j] == d);
                    assert forall|k: int| 0 <= k < d.tables@.len() implies #[trigger] d.tables@[k].name
                        == d.tables_registration_order@[k] by {
                        if k < od.tables@.len() {
                            assert(d.tables@[k] == od.tables@[k]);
                        }
                    }
                }
            }
            assert(self.domain_names() == old_s.domain_names());
            assert(self.gid_names() == old_s.gid_names());
            assert(index_of(od.table_names(), name@) is None);
        }
    }
}

/// A domain as a universe holds it, or the name of a domain it does not hold.
pub enum MaybeDomain<S: Schema> {
    /// The universe does not have this domain.
    Unset(DomainName),
    /// The universe does have that domain.
    Domain(DomainInstance<S>),
}

impl<S: Schema> MaybeDomain<S> {
    pub fn is_set(&self) -> (r: bool)
        ensures
            r == (*self is Domain),
    {
        match self {
            MaybeDomain::Unset(_) => false,
            MaybeDomain::Domain(_) => true,
        }
    }
}

/// A universe's instance of a domain: the values of its properties and its tables.
pub struct DomainInstance<S: Schema> {
    pub id: DomainId,
    pub name: DomainName,
    pub property_members: Vec<S::Value>,
    pub tables: Vec<TableOf<S>>,
    pub tables_registration_order: Vec<TableName>,
}

/// `inst` is what instantiating `info` with the producers `producers` gives: one
/// value per property member, each a clone of its producer's initial value, and an
/// empty copy of each table.
pub open spec fn instance_of<S: Schema>(
    info: DomainInfo<S>,
    producers: Seq<FmtProducer<S::Value>>,
    inst: DomainInstance<S>,
) -> bool {
    &&& inst.id == info.id
    &&& inst.name == info.name
    &&& inst.property_members@.len() == info.property_members@.len()
    &&& forall|k: int|
        0 <= k < info.property_members@.len() ==> vstd::pervasive::cloned(
            producers[info.property_members@[k].0 as int].init,
            #[trigger] inst.property_members@[k],
        )
    &&& inst.tables@.len() == info.tables@.len()
    &&& forall|t: int|
        0 <= t < info.tables@.len() ==> #[trigger] table_copy_of::<S>(info.tables@[t], inst.tables@[t])
    &&& inst.tables_registration_order@ == info.tables_registration_order@
}

/// `copy` is `orig`'s prototype: same name, domain, version, guarantees, init
/// functions and column metas, columns that hold nothing, and the prototype of
/// `orig`'s table object.
pub open spec fn table_copy_of<S: Schema>(orig: TableOf<S>, copy: TableOf<S>) -> bool {
    &&& copy.domain == orig.domain
    &&& copy.name == orig.name
    &&& copy.schema_version == orig.schema_version
    &&& copy.guarantee == orig.guarantee
    &&& copy.inits() == orig.inits()
    &&& copy.columns@.len() == orig.columns@.len()
    &&& forall|i: int|
        0 <= i < orig.columns@.len() ==> #[trigger] copy.columns@[i].meta.same_as(
            &orig.columns@[i].meta,
        )
    &&& forall|i: int| 0 <= i < copy.columns@.len() ==> (#[trigger] copy.columns@[i]).data.holds_nothing()
    &&& call_ensures(<S::Table as crate::tables::TTable>::prototype, (&orig.table,), copy.table)
}

/// A table's empty copy has the same structure as the table, both ways.
pub proof fn lemma_copy_is_equivalent<S: Schema>(orig: TableOf<S>, copy: TableOf<S>)
    requires
        table_copy_of::<S>(orig, copy),
    ensures
        crate::tables::equivalent_tables(copy, orig),
        crate::tables::equivalent_tables(orig, copy),
{
    assert forall|i: int| 0 <= i < orig.columns@.len() implies #[trigger] orig.columns@[i].meta.same_as(
        &copy.columns@[i].meta,
    ) by {
        assert(copy.columns@[i].meta.same_as(&orig.columns@[i].meta));
    }
}

impl<S: Schema> DomainInfo<S> {
    /// A new instance of this (locked) domain: fresh property values and empty tables.
    pub fn instantiate(&self, gid2producer: &[FmtProducer<S::Value>]) -> (r: DomainInstance<S>)
        requires
            self.locked,
            forall|k: int|
                0 <= k < self.property_members@.len() ==> #[trigger] self.property_members@[k].0
                    < gid2producer@.len(),
        ensures
            instance_of(*self, gid2producer@, r),
    {
        let mut properties: Vec<S::Value> = Vec::new();
        let mut k: usize = 0;
        while k < self.property_members.len()
            invariant
                0 <= k <= self.property_members@.len(),
                properties@.len() == k,
                forall|j: int|
                    0 <= j < self.property_members@.len() ==> #[trigger] self.property_members@[j].0
                        < gid2producer@.len(),
                forall|j: int|
                    0 <= j < k ==> vstd::pervasive::cloned(
                        gid2producer@[self.property_members@[j].0 as int].init,
                        #[trigger] properties@[j],
                    ),
            decreases self.property_members@.len() - k,
        {
            let gid = self.property_members[k].0;
            let v = gid2producer[gid].produce();
            properties.push(v);
            k = k + 1;
        }
        let mut tables: Vec<TableOf<S>> = Vec::new();
        let mut t: usize = 0;
        while t < self.tables.len()
            invariant
                0 <= t <= self.tables@.len(),
                tables@.len() == t,
                forall|j: int| 0 <= j < t ==> #[trigger] table_copy_of::<S>(self.tables@[j], tables@[j]),
            decreases self.tables@.len() - t,
        {
            let copy = self.tables[t].prototype();
            tables.push(copy);
            t = t + 1;
        }
        let mut order: Vec<TableName> = Vec::new();
        let mut t: usize = 0;
        while t < self.tables_registration_order.len()
            invariant
                0 <= t <= self.tables_registration_order@.len(),
                order@ == self.tables_registration_order@.subrange(0, t as int),
            decreases self.tables_registration_order@.len() - t,
        {
            order.push(self.tables_registration_order[t]);
            t = t + 1;
        }
        assert(self.tables_registration_order@.subrange(0, self.tables_registration_order@.len() as int) =~= self.tables_registration_order@);
        DomainInstance {
            id: self.id,
            name: self.name,
            property_members: properties,
            tables,
            tables_registration_order: order,
        }
    }
}

impl<S: Schema> GlobalProperties<S> {
    /// Locks the domain with id `dix` and makes an instance of it.
    pub fn instantiate_domain_at(&mut self, dix: usize) -> (r: DomainInstance<S>)
        requires
            old(self).wf(),
            dix < old(self).domains@.len(),
        ensures
            final(self).wf(),
            final(self).domains@ == old(self).domains@.update(
                dix as int,
                DomainInfo { locked: true, ..old(self).domains@[dix as int] },
            ),
            final(self).did2name == old(self).did2name,
            final(self).gid2name == old(self).gid2name,
            final(self).gid2producer == old(self).gid2producer,
            instance_of(final(self).domains@[dix as int], final(self).gid2producer@, r),
    {
        self.set_domain_locked(dix, true);
        proof {
            assert(self.wf_domain(dix as int));
        }
        self.domains[dix].instantiate(self.gid2producer.as_slice())
    }

    /// Locks the registered domain `domain` and makes an instance of it.
    pub fn instantiate_domain(&mut self, domain: DomainName) -> (r: MaybeDomain<S>)
        requires
            old(self).wf(),
            old(self).is_registered(domain@),
        ensures
            final(self).wf(),
            old(self).domain_index(domain@) matches Some(dix) && {
                &&& final(self).domains@ == old(self).domains@.update(
                    dix,
                    DomainInfo { locked: true, ..old(self).domains@[dix] },
                )
                &&& r matches MaybeDomain::Domain(inst) && instance_of(
                    final(self).domains@[dix],
                    final(self).gid2producer@,
                    inst,
                )
            },
            final(self).did2name == old(self).did2name,
            final(self).gid2name == old(self).gid2name,
            final(self).gid2producer == old(self).gid2producer,
    {
        let dix = self.find_domain(domain).unwrap();
        MaybeDomain::Domain(self.instantiate_domain_at(dix))
    }
}

/// Some name of `names` is `n`.
pub open spec fn listed(names: Seq<DomainName>, n: Seq<char>) -> bool {
    exists|k: int| 0 <= k < names.len() && names[k]@ == n
}

/// `u` holds, for each registered domain, an instance of it if `listed` says so and
/// its name otherwise; each instance is what instantiating the domain gives.
pub open spec fn fresh_domains<S: Schema>(
    globals: GlobalProperties<S>,
    names: Seq<DomainName>,
    ds: Seq<MaybeDomain<S>>,
) -> bool {
    &&& ds.len() == globals.domains@.len()
    &&& forall|x: int|
        0 <= x < ds.len() ==> if listed(names, globals.domain_names()[x]) {
            #[trigger] ds[x] matches MaybeDomain::Domain(inst) && instance_of(
                globals.domains@[x],
                globals.gid2producer@,
                inst,
            )
        } else {
            ds[x] == MaybeDomain::<S>::Unset(globals.did2name@[x])
        }
}

/// `after` is `before` with the listed domains locked.
pub open spec fn locked_listed<S: Schema>(
    before: GlobalProperties<S>,
    after: GlobalProperties<S>,
    names: Seq<DomainName>,
) -> bool {
    &&& after.did2name == before.did2name
    &&& after.gid2name == before.gid2name
    &&& after.gid2producer == before.gid2producer
    &&& after.domains@.len() == before.domains@.len()
    &&& forall|x: int|
        0 <= x < before.domains@.len() ==> #[trigger] after.domains@[x] == if listed(
            names,
            before.domain_names()[x],
        ) {
            DomainInfo { locked: true, ..before.domains@[x] }
        } else {
            before.domains@[x]
        }
}

impl<S: Schema> Universe<S> {
    /// One entry per registered domain: an instance of each listed domain (which
    /// gets locked), the name of each other one.
    pub fn get_domains(globals: &mut GlobalProperties<S>, domains: &[DomainName]) -> (r: Vec<
        MaybeDomain<S>,
    >)
        requires
            old(globals).wf(),
            forall|k: int| 0 <= k < domains@.len() ==> old(globals).is_registered(#[trigger] domains@[k]@),
        ensures
            final(globals).wf(),
            locked_listed(*old(globals), *final(globals), domains@),
            fresh_domains(*final(globals), domains@, r@),
    {
        let mut ret: Vec<MaybeDomain<S>> = Vec::new();
        let n = globals.did2name.len();
        let mut x: usize = 0;
        while x < n
            invariant
                n == globals.did2name@.len(),
                0 <= x <= n,
                ret@.len() == x,
                forall|y: int| 0 <= y < x ==> #[trigger] ret@[y] == MaybeDomain::<S>::Unset(globals.did2name@[y]),
            decreases n - x,
        {
            ret.push(MaybeDomain::Unset(globals.did2name[x]));
            x = x + 1;
        }
        let ghost g0 = *globals;
        let mut k: usize = 0;
        while k < domains.len()
            invariant
                globals.wf(),
                g0.wf(),
                0 <= k <= domains@.len(),
                forall|j: int| 0 <= j < domains@.len() ==> g0.is_registered(#[trigger] domains@[j]@),
                locked_listed(g0, *globals, domains@.subrange(0, k as int)),
                fresh_domains(*globals, domains@.subrange(0, k as int), ret@),
            decreases domains@.len() - k,
        {
            let ghost before = *globals;
            let ghost pre = domains@.subrange(0, k as int);
            let ghost post = domains@.subrange(0, k + 1);
            assert(globals.domain_names() == g0.domain_names());
            let dix = globals.find_domain(domains[k]).unwrap();
            let inst = globals.instantiate_domain_at(dix);
            ret[dix] = MaybeDomain::Domain(inst);
            proof {
                assert(globals.domain_names() == g0.domain_names());
                assert forall|y: int| #![trigger listed(post, g0.domain_names()[y])]
                    0 <= y < g0.domains@.len() implies listed(post, g0.domain_names()[y]) == (
                    listed(pre, g0.domain_names()[y]) || y == dix) by {
                    if listed(post, g0.domain_names()[y]) {
                        let j = choose|j: int| 0 <= j < post.len() && post[j]@ == g0.domain_names()[y];
                        if j < k {
                            assert(pre[j] == post[j]);
                        } else {
                            assert(post[j] == domains@[k as int]);
                            assert(g0.domain_names()[dix as int] == domains@[k as int]@);
                            assert(g0.domain_names()[y] == g0.domain_names()[dix as int]);
                        }
                    }
                    if listed(pre, g0.domain_names()[y]) {
                        let j = choose|j: int| 0 <= j < pre.len() && pre[j]@ == g0.domain_names()[y];
                        assert(post[j] == pre[j]);
                    }
                    if y == dix {
                        assert(post[k as int] == domains@[k as int]);
                    }
                }
                assert forall|y: int| 0 <= y < g0.domains@.len() implies #[trigger] globals.domains@[y] == if listed(post, g0.domain_names()[y]) {
                    DomainInfo { locked: true, ..g0.domains@[y] }
                } else {
                    g0.domains@[y]
                } by {
                    assert(before.domains@[y] == if listed(pre, g0.domain_names()[y]) {
                        DomainInfo { locked: true, ..g0.domains@[y] }
                    } else {
                        g0.domains@[y]
                    });
                }
                assert forall|y: int| 0 <= y < ret@.len() implies if listed(post, globals.domain_names()[y]) {
                    #[trigger] ret@[y] matches MaybeDomain::Domain(inst) && instance_of(
                        globals.domains@[y],
                        globals.gid2producer@,
                        inst,
                    )
                } else {
                    ret@[y] == MaybeDomain::<S>::Unset(globals.did2name@[y])
                } by {
                    if y != dix {
                        assert(before.domain_names()[y] == globals.domain_names()[y]);
                        if listed(pre, g0.domain_names()[y]) {
                            assert(globals.domains@[y] == before.domains@[y]);
                        }
                    }
                }
            }
            k = k + 1;
        }
        assert(domains@.subrange(0, domains@.len() as int) =~= domains@);
        ret
    }
}

/// The init functions of `tables`, table by table, each table's in the order they
/// were added.
pub open spec fn tables_inits<S: Schema>(tables: Seq<TableOf<S>>) -> Seq<S::Init>
    decreases tables.len(),
{
    if tables.len() == 0 {
        Seq::empty()
    } else {
        tables_inits::<S>(tables.drop_last()) + tables.last().inits()
    }
}

/// What `GenericTable::info` writes for a table.
pub open spec fn table_info<S: Schema>(t: TableOf<S>) -> Seq<char> {
    t.name@ + ":"@ + crate::tables::columns_info(t.columns@)
}

/// The infos of `tables`, separated by spaces.
pub open spec fn tables_info<S: Schema>(tables: Seq<TableOf<S>>) -> Seq<char>
    decreases tables.len(),
{
    if tables.len() == 0 {
        Seq::empty()
    } else if tables.len() == 1 {
        table_info::<S>(tables[0])
    } else {
        tables_info::<S>(tables.drop_last()) + " "@ + table_info::<S>(tables.last())
    }
}

/// One line per domain instance of `ds`: its name, a colon, and its tables' infos.
pub open spec fn universe_info<S: Schema>(ds: Seq<MaybeDomain<S>>) -> Seq<char>
    decreases ds.len(),
{
    if ds.len() == 0 {
        Seq::empty()
    } else {
        let rest = universe_info::<S>(ds.drop_last());
        match ds.last() {
            MaybeDomain::Domain(inst) => rest + inst.name@ + ": "@ + tables_info::<S>(inst.tables@)
                + "\n"@,
            MaybeDomain::Unset(_) => rest,
        }
    }
}

/// The names of the domains that `ds` holds instances of, in order.
pub open spec fn instance_names<S: Schema>(ds: Seq<MaybeDomain<S>>) -> Seq<DomainName>
    decreases ds.len(),
{
    if ds.len() == 0 {
        Seq::empty()
    } else {
        let rest = instance_names::<S>(ds.drop_last());
        match ds.last() {
            MaybeDomain::Domain(inst) => rest.push(inst.name),
            MaybeDomain::Unset(_) => rest,
        }
    }
}

/// `new` extends `old` with one property value per producer of `gids[old.len()..]`,
/// each a clone of the producer's initial value.
pub open spec fn extended_with<V: Clone>(
    old: Seq<V>,
    new: Seq<V>,
    gids: Seq<GlobalPropertyId>,
    producers: Seq<FmtProducer<V>>,
) -> bool {
    if old.len() >= gids.len() {
        new == old
    } else {
        &&& new.len() == gids.len()
        &&& new.subrange(0, old.len() as int) == old
        &&& forall|k: int|
            old.len() <= k < gids.len() ==> vstd::pervasive::cloned(
                producers[gids[k].0 as int].init,
                #[trigger] new[k],
            )
    }
}

impl<S: Schema> DomainInstance<S> {
    /// Adds a value for each property registered in this domain since the instance
    /// was made (or last caught up).
    pub fn add_properties(&mut self, all_properties: &GlobalProperties<S>)
        requires
            all_properties.wf(),
            all_properties.is_registered(old(self).name@),
        ensures
            all_properties.domain_index(old(self).name@) matches Some(dix) && extended_with(
                old(self).property_members@,
                final(self).property_members@,
                all_properties.domains@[dix].property_members@,
                all_properties.gid2producer@,
            ),
            final(self).id == old(self).id,
            final(self).name == old(self).name,
            final(self).tables == old(self).tables,
            final(self).tables_registration_order == old(self).tables_registration_order,
    {
        let dix = all_properties.find_domain(self.name).unwrap();
        let info = &all_properties.domains[dix];
        proof {
            assert(all_properties.wf_domain(dix as int));
        }
        let ghost start = self.property_members@;
        while self.property_members.len() < info.property_members.len()
            invariant
                all_properties.wf(),
                all_properties.wf_domain(dix as int),
                *info == all_properties.domains@[dix as int],
                self.id == old(self).id,
                self.name == old(self).name,
                self.tables == old(self).tables,
                self.tables_registration_order == old(self).tables_registration_order,
                start == old(self).property_members@,
                start.len() <= self.property_members@.len() || self.property_members@ == start,
                self.property_members@.subrange(0, start.len() as int) == start || self.property_members@ == start,
                self.property_members@.len() >= start.len(),
                self.property_members@.len() > start.len() ==> self.property_members@.len() <= info.property_members@.len(),
                forall|k: int|
                    start.len() <= k < self.property_members@.len() ==> vstd::pervasive::cloned(
                        all_properties.gid2producer@[info.property_members@[k].0 as int].init,
                        #[trigger] self.property_members@[k],
                    ),
            decreases info.property_members@.len() - self.property_members@.len(),
        {
            let k = self.property_members.len();
            let gid = info.property_members[k].0;
            let v = all_properties.gid2producer[gid].produce();
            self.property_members.push(v);
        }
        proof {
            if self.property_members@.len() == start.len() {
                assert(self.property_members@ =~= start);
            }
            assert(self.property_members@.subrange(0, start.len() as int) =~= start);
        }
    }

    /// The table named `name` of this instance.
    pub fn get_generic_table(&self, name: TableName) -> (r: &TableOf<S>)
        requires
            exists|t: int| 0 <= t < self.tables@.len() && self.tables@[t].name@ == name@,
        ensures
            r.name@ == name@,
            exists|t: int| 0 <= t < self.tables@.len() && self.tables@[t] == *r,
    {
        let mut t: usize = 0;
        while t < self.tables.len()
            invariant
                0 <= t <= self.tables@.len(),
                forall|j: int| 0 <= j < t ==> self.tables@[j].name@ != name@,
                exists|t: int| 0 <= t < self.tables@.len() && self.tables@[t].name@ == name@,
            decreases self.tables@.len() - t,
        {
            if self.tables[t].name.same(&name) {
                return &self.tables[t];
            }
            t = t + 1;
        }
        proof {
            let j = choose|j: int| 0 <= j < self.tables@.len() && self.tables@[j].name@ == name@;
            assert(false);
        }
        &self.tables[0]
    }
}

impl<S: Schema> Universe<S> {
    /// The init functions of the tables of `domain`'s instance, table by table in
    /// registration order: they are to be run on the universe when it gets the domain.
    pub fn domain_inits(&self, globals: &GlobalProperties<S>, domain: DomainName) -> (r: Vec<S::Init>)
        requires
            globals.wf(),
            globals.is_registered(domain@),
            globals.domain_index(domain@) matches Some(dix) && dix < self.domains@.len()
                && self.domains@[dix] is Domain,
        ensures
            globals.domain_index(domain@) matches Some(dix) && self.domains@[dix] matches MaybeDomain::Domain(inst)
                && r@ == tables_inits::<S>(inst.tables@),
    {
        let did = domain.get_id(globals);
        match &self.domains[did.0] {
            MaybeDomain::Domain(inst) => {
                let mut out: Vec<S::Init> = Vec::new();
                let mut t: usize = 0;
                while t < inst.tables.len()
                    invariant
                        0 <= t <= inst.tables@.len(),
                        out@ == tables_inits::<S>(inst.tables@.subrange(0, t as int)),
                    decreases inst.tables@.len() - t,
                {
                    let inits = inst.tables[t].get_inits();
                    let mut i: usize = 0;
                    let ghost before = out@;
                    while i < inits.len()
                        invariant
                            0 <= i <= inits@.len(),
                            out@ == before + inits@.subrange(0, i as int),
                        decreases inits@.len() - i,
                    {
                        out.push(inits[i]);
                        i = i + 1;
                    }
                    assert(inits@.subrange(0, inits@.len() as int) =~= inits@);
                    assert(inst.tables@.subrange(0, t + 1).drop_last() =~= inst.tables@.subrange(0, t as int));
                    t = t + 1;
                }
                assert(inst.tables@.subrange(0, inst.tables@.len() as int) =~= inst.tables@);
                out
            },
            MaybeDomain::Unset(_) => {
                Vec::new()
            },
        }
    }

    /// Makes sure this universe has an entry for every registered domain.
    pub fn sync_domain_list(&mut self, globals: &GlobalProperties<S>)
        requires
            old(self).domains@.len() <= globals.did2name@.len(),
        ensures
            final(self).domains@.len() == globals.did2name@.len(),
            final(self).domains@.subrange(0, old(self).domains@.len() as int) == old(self).domains@,
            forall|x: int|
                old(self).domains@.len() <= x < globals.did2name@.len() ==> #[trigger] final(self).domains@[x]
                    == MaybeDomain::<S>::Unset(globals.did2name@[x]),
            final(self).event_handlers == old(self).event_handlers,
    {
        let start = self.domains.len();
        while self.domains.len() < globals.did2name.len()
            invariant
                start == old(self).domains@.len(),
                start <= self.domains@.len() <= globals.did2name@.len(),
                self.domains@.subrange(0, start as int) == old(self).domains@,
                forall|x: int|
                    start <= x < self.domains@.len() ==> #[trigger] self.domains@[x]
                        == MaybeDomain::<S>::Unset(globals.did2name@[x]),
                self.event_handlers == old(self).event_handlers,
            decreases globals.did2name@.len() - self.domains@.len(),
        {
            let x = self.domains.len();
            let ghost before = self.domains@;
            self.domains.push(MaybeDomain::Unset(globals.did2name[x]));
            assert(self.domains@.subrange(0, start as int) =~= before.subrange(0, start as int));
        }
    }

    /// Adds an instance of the registered domain `domain` (locking it), unless the
    /// universe has one already, and runs the init functions of the new instance's
    /// tables on the universe. Returns the init functions it ran (none if the
    /// universe had the domain).
    pub fn add_domain<R: crate::InitRunner<S>>(
        &mut self,
        globals: &mut GlobalProperties<S>,
        domain: DomainName,
        runner: &R,
    ) -> (r: Vec<S::Init>)
        requires
            old(globals).wf(),
            old(globals).is_registered(domain@),
            old(self).domains@.len() <= old(globals).did2name@.len(),
        ensures
            final(globals).wf(),
            final(self).domains@.len() == old(globals).did2name@.len(),
            final(self).event_handlers == old(self).event_handlers,
            old(globals).domain_index(domain@) matches Some(dix) && {
                let synced = if dix < old(self).domains@.len() { old(self).domains@[dix] } else {
                    MaybeDomain::<S>::Unset(old(globals).did2name@[dix])
                };
                &&& synced is Domain ==> *final(globals) == *old(globals) && r@.len() == 0
                    && final(self).domains@[dix] == synced
                &&& synced is Unset ==> {
                    &&& final(globals).domains@ == old(globals).domains@.update(
                        dix,
                        DomainInfo { locked: true, ..old(globals).domains@[dix] },
                    )
                    &&& final(globals).did2name == old(globals).did2name
                    &&& final(globals).gid2name == old(globals).gid2name
                    &&& final(globals).gid2producer == old(globals).gid2producer
                    &&& final(self).domains@[dix] matches MaybeDomain::Domain(inst) && instance_of(
                        final(globals).domains@[dix],
                        final(globals).gid2producer@,
                        inst,
                    ) && r@ == tables_inits::<S>(inst.tables@)
                }
                &&& forall|x: int|
                    0 <= x < final(self).domains@.len() && x != dix ==> #[trigger] final(self).domains@[x]
                        == if x < old(self).domains@.len() { old(self).domains@[x] } else {
                        MaybeDomain::<S>::Unset(old(globals).did2name@[x])
                    }
            },
    {
        self.sync_domain_list(globals);
        let id = domain.get_id(globals).0;
        if self.domains[id].is_set() {
            return Vec::new();
        }
        let inst = globals.instantiate_domain(domain);
        self.domains[id] = inst;
        proof {
            assert(globals.domain_names() == old(globals).domain_names());
        }
        let inits = self.domain_inits(globals, domain);
        self.run_inits(&inits, runner);
        inits
    }

    /// Catches every domain instance up with the properties registered since it was made.
    pub fn add_properties(&mut self, globals: &GlobalProperties<S>)
        requires
            globals.wf(),
            forall|x: int|
                0 <= x < old(self).domains@.len() ==> (#[trigger] old(self).domains@[x] matches MaybeDomain::Domain(inst)
                    ==> globals.is_registered(inst.name@)),
        ensures
            final(self).domains@.len() == old(self).domains@.len(),
            final(self).event_handlers == old(self).event_handlers,
            forall|x: int|
                0 <= x < old(self).domains@.len() ==> match (#[trigger] old(self).domains@[x], final(self).domains@[x]) {
                    (MaybeDomain::Unset(a), MaybeDomain::Unset(b)) => a == b,
                    (MaybeDomain::Domain(a), MaybeDomain::Domain(b)) => {
                        &&& b.id == a.id
                        &&& b.name == a.name
                        &&& b.tables == a.tables
                        &&& b.tables_registration_order == a.tables_registration_order
                        &&& globals.domain_index(a.name@) matches Some(dix) && extended_with(
                            a.property_members@,
                            b.property_members@,
                            globals.domains@[dix].property_members@,
                            globals.gid2producer@,
                        )
                    },
                    _ => false,
                },
    {
        let n = self.domains.len();
        let mut x: usize = 0;
        while x < n
            invariant
                globals.wf(),
                n == old(self).domains@.len(),
                n == self.domains@.len(),
                0 <= x <= n,
                self.event_handlers == old(self).event_handlers,
                forall|y: int| x <= y < n ==> #[trigger] self.domains@[y] == old(self).domains@[y],
                forall|y: int|
                    0 <= y < n ==> (#[trigger] old(self).domains@[y] matches MaybeDomain::Domain(inst)
                        ==> globals.is_registered(inst.name@)),
                forall|y: int|
                    0 <= y < x ==> match (#[trigger] old(self).domains@[y], self.domains@[y]) {
                        (MaybeDomain::Unset(a), MaybeDomain::Unset(b)) => a == b,
                        (MaybeDomain::Domain(a), MaybeDomain::Domain(b)) => {
                            &&& b.id == a.id
                            &&& b.name == a.name
                            &&& b.tables == a.tables
                            &&& b.tables_registration_order == a.tables_registration_order
                            &&& globals.domain_index(a.name@) matches Some(dix) && extended_with(
                                a.property_members@,
                                b.property_members@,
                                globals.domains@[dix].property_members@,
                                globals.gid2producer@,
                            )
                        },
                        _ => false,
                    },
            decreases n - x,
        {
            let mut d = self.domains.remove(x);
            match d {
                MaybeDomain::Domain(ref mut inst) => {
                    inst.add_properties(globals);
                },
                MaybeDomain::Unset(_) => {},
            }
            self.domains.insert(x, d);
            x = x + 1;
        }
    }

    /// Describes the tables of each domain instance (not their contents): one line
    /// per instance, with its name and the info of each of its tables.
    pub fn info(&self) -> (r: String)
        ensures
            r@ == universe_info::<S>(self.domains@),
    {
        let mut out = String::new();
        let mut x: usize = 0;
        while x < self.domains.len()
            invariant
                0 <= x <= self.domains@.len(),
                out@ == universe_info::<S>(self.domains@.subrange(0, x as int)),
            decreases self.domains@.len() - x,
        {
            assert(self.domains@.subrange(0, x + 1).drop_last() =~= self.domains@.subrange(0, x as int));
            match &self.domains[x] {
                MaybeDomain::Domain(inst) => {
                    out.append(inst.name.0);
                    out.append(": ");
                    let mut t: usize = 0;
                    let ghost before = out@;
                    while t < inst.tables.len()
                        invariant
                            0 <= t <= inst.tables@.len(),
                            out@ == before + tables_info::<S>(inst.tables@.subrange(0, t as int)),
                        decreases inst.tables@.len() - t,
                    {
                        if t > 0 {
                            out.append(" ");
                        }
                        let info = inst.tables[t].info();
                        out.append(info.as_str());
                        assert(inst.tables@.subrange(0, t + 1).drop_last() =~= inst.tables@.subrange(0, t as int));
                        if t == 0 {
                            assert(inst.tables@.subrange(0, 1)[0] == inst.tables@[0]);
                        }
                        t = t + 1;
                    }
                    assert(inst.tables@.subrange(0, inst.tables@.len() as int) =~= inst.tables@);
                    out.append("\n");
                },
                MaybeDomain::Unset(_) => {},
            }
            x = x + 1;
        }
        assert(self.domains@.subrange(0, self.domains@.len() as int) =~= self.domains@);
        out
    }

    /// The names of the domains this universe holds instances of, in order.
    pub fn get_domain_names(&self) -> (r: Vec<DomainName>)
        ensures
            r@ == instance_names::<S>(self.domains@),
    {
        let mut ret: Vec<DomainName> = Vec::new();
        let mut x: usize = 0;
        while x < self.domains.len()
            invariant
                0 <= x <= self.domains@.len(),
                ret@ == instance_names::<S>(self.domains@.subrange(0, x as int)),
            decreases self.domains@.len() - x,
        {
            assert(self.domains@.subrange(0, x + 1).drop_last() =~= self.domains@.subrange(0, x as int));
            match &self.domains[x] {
                MaybeDomain::Domain(inst) => ret.push(inst.name),
                MaybeDomain::Unset(_) => {},
            }
            x = x + 1;
        }
        assert(self.domains@.subrange(0, self.domains@.len() as int) =~= self.domains@);
        ret
    }
}

} // verus!

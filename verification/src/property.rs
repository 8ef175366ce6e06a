//! Properties: singleton values that each universe holds, one per registered
//! property of each of its domains.

use vstd::prelude::*;
use vstd::string::StringSliceAdditionalSpecFns;
use core::marker::PhantomData;
use crate::domain::{DomainId, DomainName, GlobalProperties, FmtProducer};
use crate::{Schema, Universe};
use crate::domain::{MaybeDomain, instance_of, fresh_domains, listed, lemma_index_of_distinct};
use crate::intern::{is_name_byte, is_ascii_letter, valid_name_bytes};

verus! {

/// The full name of a property, in the form `domain/name`.
#[derive(Debug, Clone, Copy)]
pub struct PropertyName(pub &'static str);

impl View for PropertyName {
    type V = Seq<char>;

    open spec fn view(&self) -> Seq<char> {
        self.0@
    }
}

/// The position of a property among the members of its domain.
#[derive(Debug, Clone, Copy)]
pub struct DomainedPropertyId(pub usize);

/// The position of a property among all registered properties.
#[derive(Debug, Clone, Copy)]
pub struct GlobalPropertyId(pub usize);

/// The index value of a property that has not been registered yet.
pub const UNSET: usize = usize::MAX;

/// Where a property's value is found: in which domain, at which position.
#[derive(Debug)]
pub struct PropertyIndex<V> {
    pub domain_id: DomainId,
    pub domained_index: DomainedPropertyId,
    pub global_index: GlobalPropertyId,
    pub v: PhantomData<V>,
}

impl<V> Clone for PropertyIndex<V> {
    fn clone(&self) -> (r: Self)
        ensures
            r == *self,
    {
        PropertyIndex {
            domain_id: self.domain_id,
            domained_index: self.domained_index,
            global_index: self.global_index,
            v: PhantomData,
        }
    }
}

impl<V> Copy for PropertyIndex<V> {

}

impl<V> Clone for Prop<V> {
    fn clone(&self) -> (r: Self)
        ensures
            r == *self,
    {
        Prop { domain_name: self.domain_name, name: self.name, index: self.index.clone() }
    }
}

impl<V> Copy for Prop<V> {

}

impl<V> PropertyIndex<V> {
    /// The index of a property that has not been registered.
    pub fn unset() -> (r: PropertyIndex<V>)
        ensures
            r.domain_id.0 == UNSET,
            r.domained_index.0 == UNSET,
            r.global_index.0 == UNSET,
    {
        PropertyIndex {
            domain_id: DomainId(UNSET),
            domained_index: DomainedPropertyId(UNSET),
            global_index: GlobalPropertyId(UNSET),
            v: PhantomData,
        }
    }
}

/// A property of type `V` of a domain.
pub struct Prop<V> {
    pub domain_name: DomainName,
    pub name: PropertyName,
    pub index: PropertyIndex<V>,
}

/// The UTF-8 bytes of a property's full name are those of its domain, a `/`,
/// then a valid name.
pub open spec fn prop_name_ok(domain: Seq<u8>, name: Seq<u8>) -> bool {
    &&& valid_name_bytes(domain)
    &&& name.len() > domain.len()
    &&& name.subrange(0, domain.len() as int) == domain
    &&& name[domain.len() as int] == 47
    &&& valid_name_bytes(name.subrange(domain.len() as int + 1, name.len() as int))
}

impl<V> Prop<V> {
    /// A property named `name` in the domain `domain_name`, not registered yet.
    pub fn new(domain_name: DomainName, name: PropertyName) -> (r: Prop<V>)
        ensures
            r.domain_name == domain_name,
            r.name == name,
            r.index.domain_id.0 == UNSET,
            r.index.domained_index.0 == UNSET,
            r.index.global_index.0 == UNSET,
    {
        Prop { domain_name, name, index: PropertyIndex::unset() }
    }

    /// The property's names are well formed (see `prop_name_ok`).
    pub open spec fn names_ok(&self) -> bool {
        prop_name_ok(self.domain_name.0.spec_bytes(), self.name.0.spec_bytes())
    }

    pub fn get_domain_id(&self) -> (r: DomainId)
        ensures
            r == self.index.domain_id,
    {
        self.index.domain_id
    }

    pub fn get_index_within_domain(&self) -> (r: DomainedPropertyId)
        ensures
            r == self.index.domained_index,
    {
        self.index.domained_index
    }

    pub fn get_global_index(&self) -> (r: GlobalPropertyId)
        ensures
            r == self.index.global_index,
    {
        self.index.global_index
    }

    /// Whether the property's full name is its domain's name, a `/`, and a valid
    /// name, with the domain's name valid too.
    pub fn check_name(&self) -> (r: bool)
        ensures
            r == self.names_ok(),
    {
        let d = self.domain_name.0.as_bytes();
        let n = self.name.0.as_bytes();
        let dl = d.len();
        let nl = n.len();
        if crate::intern::name_error(self.domain_name.0).is_some() {
            return false;
        }
        if nl <= dl {
            return false;
        }
        let mut i: usize = 0;
        while i < dl
            invariant
                dl == d@.len(),
                nl == n@.len(),
                d@ == self.domain_name.0.spec_bytes(),
                n@ == self.name.0.spec_bytes(),
                dl < nl,
                0 <= i <= dl,
                forall|j: int| 0 <= j < i ==> n@[j] == d@[j],
            decreases dl - i,
        {
            if n[i] != d[i] {
                assert(n@.subrange(0, dl as int)[i as int] != d@[i as int]);
                return false;
            }
            i = i + 1;
        }
        assert(n@.subrange(0, dl as int) =~= d@);
        if n[dl] != 47u8 {
            return false;
        }
        let start = dl + 1;
        let ghost rest = n@.subrange(start as int, nl as int);
        if start == nl {
            return false;
        }
        let f = n[start];
        if !((65u8 <= f && f <= 90u8) || (97u8 <= f && f <= 122u8)) {
            assert(!is_ascii_letter(rest[0]));
            return false;
        }
        let mut k: usize = start;
        while k < nl
            invariant
                nl == n@.len(),
                n@ == self.name.0.spec_bytes(),
                d@ == self.domain_name.0.spec_bytes(),
                valid_name_bytes(d@),
                dl == d@.len(),
                start == dl + 1,
                n@.subrange(0, dl as int) == d@,
                n@[dl as int] == 47,
                start < nl,
                start <= k <= nl,
                rest == n@.subrange(start as int, nl as int),
                is_ascii_letter(rest[0]),
                forall|j: int| start <= j < k ==> is_name_byte(#[trigger] n@[j]),
            decreases nl - k,
        {
            let c = n[k];
            if !((65u8 <= c && c <= 90u8) || (97u8 <= c && c <= 122u8) || (48u8 <= c && c <= 57u8)
                || c == 95u8) {
                assert(!is_name_byte(rest[k - start]));
                return false;
            }
            k = k + 1;
        }
        assert forall|j: int| 0 <= j < rest.len() implies is_name_byte(#[trigger] rest[j]) by {
            assert(rest[j] == n@[start + j]);
        }
        true
    }
}

/// What `Prop::init` does: nothing for a property that already has its place.
/// Otherwise, in its (unlocked) domain `dix`: the property takes the domained
/// index its name already has there, or the next one (the old member count) if
/// the name is new to the domain; it takes the global id its name already has, or
/// the next one (the old producer count) if the name is new, and then `producer`
/// is recorded. The domain records one more member; the registry's name tables
/// keep their entries; the rest of the domain's record and the other domains are
/// untouched.
pub open spec fn init_effect<S: Schema>(
    before: GlobalProperties<S>,
    after: GlobalProperties<S>,
    p0: Prop<S::Value>,
    p1: Prop<S::Value>,
    producer: FmtProducer<S::Value>,
) -> bool {
    &&& p0.is_set() ==> p1 == p0 && after == before
    &&& !p0.is_set() ==> (before.domain_index(p0.domain_name@) matches Some(dix) && {
        let od = before.domains@[dix];
        let nd = after.domains@[dix];
        let did = p1.index.domained_index.0;
        let gid = p1.index.global_index.0;
        &&& !od.locked
        &&& p1.indexed_by(after)
        &&& p1.is_set()
        &&& p1.domain_name == p0.domain_name
        &&& p1.name == p0.name
        &&& p1.index.domain_id.0 == dix
        &&& after.did2name == before.did2name
        &&& after.domains@.len() == before.domains@.len()
        &&& forall|x: int| 0 <= x < before.domains@.len() && x != dix ==> after.domains@[x] == before.domains@[x]
        &&& nd.property_members@ == od.property_members@.push(GlobalPropertyId(gid))
        &&& nd.id == od.id
        &&& nd.name == od.name
        &&& nd.locked == od.locked
        &&& nd.tables == od.tables
        &&& nd.tables_registration_order == od.tables_registration_order
        &&& match before.did_slot(dix, p0.name@) {
            Some(t) => nd.name2did == od.name2did && did == od.name2did@[t].1.0,
            None => nd.name2did@ == od.name2did@.push((p0.name, DomainedPropertyId(did))) && did
                == od.property_members@.len(),
        }
        &&& match before.gid_of(p0.name@) {
            Some(g) => gid == g && after.gid2name == before.gid2name && after.gid2producer
                == before.gid2producer,
            None => gid == before.gid2producer@.len() && after.gid2name@ == before.gid2name@.push(p0.name)
                && after.gid2producer@ == before.gid2producer@.push(producer),
        }
    })
}

impl<V> Prop<V> {
    /// The property has been given its place in a registry.
    pub open spec fn is_set(&self) -> bool {
        self.index.global_index.0 != UNSET
    }

    /// The property's index is the one the registry `globals` has for its names.
    pub open spec fn indexed_by<S: Schema>(&self, globals: GlobalProperties<S>) -> bool {
        globals.registered_index(self.domain_name@, self.name@) == Some(
            (
                self.index.domain_id.0 as int,
                self.index.domained_index.0 as int,
                self.index.global_index.0 as int,
            ),
        )
    }

    /// What `init` needs of an unregistered property: well formed names, a registered
    /// domain that is not locked, and room for one more property.
    pub open spec fn can_init<S: Schema>(&self, globals: GlobalProperties<S>) -> bool {
        &&& self.names_ok()
        &&& globals.domain_index(self.domain_name@) matches Some(dix) && {
            &&& !globals.domains@[dix].locked
            &&& globals.domains@[dix].property_members@.len() < usize::MAX
        }
        &&& globals.gid2name@.len() < usize::MAX
    }

    /// Registers the property with the registry. The first registration of a
    /// property name records `producer` for it; a property registered again (this one
    /// or one of the same name) takes the place that the name already has. Calling
    /// `init` on a property that was already initialized does nothing.
    pub fn init<S: Schema<Value = V>>(&mut self, globals: &mut GlobalProperties<S>, producer: FmtProducer<V>)
        requires
            old(globals).wf(),
            !old(self).is_set() ==> old(self).can_init(*old(globals)),
        ensures
            final(globals).wf(),
            init_effect(*old(globals), *final(globals), *old(self), *final(self), producer),
    {
        if self.index.global_index.0 != UNSET {
            return;
        }
        let dix = globals.find_domain(self.domain_name).unwrap();
        let (did, gid) = globals.add_property(dix, self.name, producer);
        self.index = PropertyIndex {
            domain_id: DomainId(dix),
            domained_index: DomainedPropertyId(did),
            global_index: GlobalPropertyId(gid),
            v: PhantomData,
        };
        proof {
            assert(globals.domain_names() == old(globals).domain_names());
        }
    }

    /// Takes the place that the registry has for this property's name, which a twin
    /// of this property (another property of the same names) has registered.
    pub fn sync_alias<S: Schema>(&mut self, globals: &GlobalProperties<S>)
        requires
            globals.wf(),
            globals.registered_index(old(self).domain_name@, old(self).name@) is Some,
        ensures
            final(self).indexed_by(*globals),
            final(self).domain_name == old(self).domain_name,
            final(self).name == old(self).name,
    {
        let dix = globals.find_domain(self.domain_name).unwrap();
        let gid = globals.find_gid(self.name).unwrap();
        let t = globals.find_did_slot(dix, self.name).unwrap();
        self.index = PropertyIndex {
            domain_id: DomainId(dix),
            domained_index: globals.domains[dix].name2did[t].1,
            global_index: GlobalPropertyId(gid),
            v: PhantomData,
        };
    }
}

impl<S: Schema> Universe<S> {
    /// The universe holds a value for `prop`: the property's domain is instantiated
    /// and has a value at the property's position.
    pub open spec fn has_prop(&self, prop: Prop<S::Value>) -> bool {
        let d = prop.index.domain_id.0 as int;
        let k = prop.index.domained_index.0 as int;
        &&& 0 <= d < self.domains@.len()
        &&& self.domains@[d] matches MaybeDomain::Domain(inst) && k < inst.property_members@.len()
    }

    /// The value the universe holds for `prop`.
    pub open spec fn prop_value(&self, prop: Prop<S::Value>) -> S::Value {
        let d = prop.index.domain_id.0 as int;
        let k = prop.index.domained_index.0 as int;
        match self.domains@[d] {
            MaybeDomain::Domain(inst) => inst.property_members@[k],
            MaybeDomain::Unset(_) => arbitrary(),
        }
    }

    /// `after` is `before` with the value of `prop` replaced by `v`, and nothing else changed.
    pub open spec fn set_value(before: Universe<S>, after: Universe<S>, prop: Prop<S::Value>, v: S::Value) -> bool {
        let d = prop.index.domain_id.0 as int;
        let k = prop.index.domained_index.0 as int;
        &&& after.event_handlers == before.event_handlers
        &&& after.domains@.len() == before.domains@.len()
        &&& forall|x: int| 0 <= x < before.domains@.len() && x != d ==> after.domains@[x] == before.domains@[x]
        &&& match (before.domains@[d], after.domains@[d]) {
            (MaybeDomain::Domain(a), MaybeDomain::Domain(b)) => {
                &&& b.id == a.id
                &&& b.name == a.name
                &&& b.tables == a.tables
                &&& b.tables_registration_order == a.tables_registration_order
                &&& b.property_members@ == a.property_members@.update(k, v)
            },
            _ => false,
        }
    }

    /// Whether the universe holds a value for `prop`.
    pub fn has_property(&self, prop: &Prop<S::Value>) -> (r: bool)
        ensures
            r == self.has_prop(*prop),
    {
        let d = prop.index.domain_id.0;
        let k = prop.index.domained_index.0;
        if d >= self.domains.len() {
            return false;
        }
        match &self.domains[d] {
            MaybeDomain::Domain(inst) => k < inst.property_members.len(),
            MaybeDomain::Unset(_) => false,
        }
    }

    /// The value of `prop`.
    pub fn index(&self, prop: &Prop<S::Value>) -> (r: &S::Value)
        requires
            self.has_prop(*prop),
        ensures
            *r == self.prop_value(*prop),
    {
        let d = prop.index.domain_id.0;
        let k = prop.index.domained_index.0;
        match &self.domains[d] {
            MaybeDomain::Domain(inst) => &inst.property_members[k],
            MaybeDomain::Unset(_) => vstd::pervasive::unreached(),
        }
    }

    /// A copy of the value of `prop`.
    pub fn get(&self, prop: &Prop<S::Value>) -> (r: S::Value)
        where S::Value: Copy,
        requires
            self.has_prop(*prop),
        ensures
            r == self.prop_value(*prop),
    {
        *self.index(prop)
    }

    /// The value of `prop`, to read.
    pub fn read(&self, prop: &Prop<S::Value>) -> (r: &S::Value)
        requires
            self.has_prop(*prop),
        ensures
            *r == self.prop_value(*prop),
    {
        self.index(prop)
    }

    /// Sets the value of `prop`.
    pub fn set(&mut self, prop: &Prop<S::Value>, val: S::Value)
        requires
            old(self).has_prop(*prop),
        ensures
            Self::set_value(*old(self), *final(self), *prop, val),
            final(self).has_prop(*prop),
            final(self).prop_value(*prop) == val,
    {
        let d = prop.index.domain_id.0;
        let k = prop.index.domained_index.0;
        let mut md = self.domains.remove(d);
        match md {
            MaybeDomain::Domain(ref mut inst) => {
                inst.property_members.set(k, val);
            },
            MaybeDomain::Unset(_) => {},
        }
        self.domains.insert(d, md);
        proof {
            assert forall|x: int| 0 <= x < old(self).domains@.len() && x != d implies self.domains@[x] == old(self).domains@[x] by {
                if x < d {
                } else {
                }
            }
        }
    }

    /// The value of `prop`, to write.
    pub fn write(&mut self, prop: &Prop<S::Value>) -> (r: &mut S::Value)
        requires
            old(self).has_prop(*prop),
        ensures
            *r == old(self).prop_value(*prop),
            Self::set_value(*old(self), *final(self), *prop, *final(r)),
    {
        let d = prop.index.domain_id.0;
        let k = prop.index.domained_index.0;
        match &mut self.domains[d] {
            MaybeDomain::Domain(inst) => &mut inst.property_members[k],
            MaybeDomain::Unset(_) => vstd::pervasive::unreached(),
        }
    }

    /// Exchanges the value of `prop` with `val`, returning the old value.
    pub fn swap(&mut self, prop: &Prop<S::Value>, val: S::Value) -> (r: S::Value)
        requires
            old(self).has_prop(*prop),
        ensures
            r == old(self).prop_value(*prop),
            Self::set_value(*old(self), *final(self), *prop, val),
            final(self).has_prop(*prop),
            final(self).prop_value(*prop) == val,
    {
        let d = prop.index.domain_id.0;
        let k = prop.index.domained_index.0;
        let mut md = self.domains.remove(d);
        let mut out = val;
        match md {
            MaybeDomain::Domain(ref mut inst) => {
                core::mem::swap(&mut inst.property_members[k], &mut out);
            },
            MaybeDomain::Unset(_) => {},
        }
        self.domains.insert(d, md);
        out
    }
}

/// Initializing a property never changes the record of a locked domain: a domain
/// that a universe has instantiated takes no new members.
pub proof fn lemma_init_spares_locked_domains<S: Schema>(
    before: GlobalProperties<S>,
    after: GlobalProperties<S>,
    p0: Prop<S::Value>,
    p1: Prop<S::Value>,
    producer: FmtProducer<S::Value>,
    x: int,
)
    requires
        init_effect(before, after, p0, p1, producer),
        0 <= x < before.domains@.len(),
        before.domains@[x].locked,
    ensures
        after.domains@[x] == before.domains@[x],
{
}

/// Initializing a property keeps every property that had its place in the
/// registry at that place.
pub proof fn lemma_init_keeps_places<S: Schema>(
    before: GlobalProperties<S>,
    after: GlobalProperties<S>,
    p0: Prop<S::Value>,
    p1: Prop<S::Value>,
    producer: FmtProducer<S::Value>,
    q: Prop<S::Value>,
)
    requires
        before.wf(),
        after.wf(),
        init_effect(before, after, p0, p1, producer),
        q.indexed_by(before),
    ensures
        q.indexed_by(after),
{
    if !p0.is_set() {
        let dix = before.domain_index(p0.domain_name@)->0;
        let qd = before.domain_index(q.domain_name@)->0;
        assert(after.domain_names() =~= before.domain_names());
        let t = before.did_slot(qd, q.name@)->0;
        let g = before.gid_of(q.name@)->0;
        assert(before.domains@[qd].did_names()[t] == q.name@);
        assert(after.domains@[qd].name2did@[t] == before.domains@[qd].name2did@[t]);
        assert(after.domains@[qd].did_names()[t] == q.name@);
        assert(after.wf_domain(qd));
        lemma_index_of_distinct(after.domains@[qd].did_names(), t);
        assert(before.gid_names()[g] == q.name@);
        assert(after.gid2name@[g] == before.gid2name@[g]);
        assert(after.gid_names()[g] == q.name@);
        lemma_index_of_distinct(after.gid_names(), g);
    }
}

/// A twin of a property that has its place (another property of the same names)
/// takes that same place when it is initialized, so both read and write the same
/// value in every universe.
pub proof fn lemma_twin_takes_place<S: Schema>(
    before: GlobalProperties<S>,
    after: GlobalProperties<S>,
    p0: Prop<S::Value>,
    p1: Prop<S::Value>,
    producer: FmtProducer<S::Value>,
    twin: Prop<S::Value>,
    u: Universe<S>,
)
    requires
        before.wf(),
        after.wf(),
        init_effect(before, after, p0, p1, producer),
        twin.indexed_by(before),
        !p0.is_set(),
        twin.domain_name@ == p0.domain_name@,
        twin.name@ == p0.name@,
    ensures
        p1.index.domain_id == twin.index.domain_id,
        p1.index.domained_index == twin.index.domained_index,
        p1.index.global_index == twin.index.global_index,
        after.gid2producer == before.gid2producer,
        u.prop_value(p1) == u.prop_value(twin),
{
    lemma_init_keeps_places(before, after, p0, p1, producer, twin);
    lemma_aliases_agree(after, u, p1, twin);
}

/// Two properties with the same names that both have their place in a registry
/// have the same place, so every universe holds the same value for both.
pub proof fn lemma_aliases_agree<S: Schema>(
    globals: GlobalProperties<S>,
    u: Universe<S>,
    p: Prop<S::Value>,
    q: Prop<S::Value>,
)
    requires
        p.indexed_by(globals),
        q.indexed_by(globals),
        p.domain_name@ == q.domain_name@,
        p.name@ == q.name@,
    ensures
        p.index.domain_id == q.index.domain_id,
        p.index.domained_index == q.index.domained_index,
        p.index.global_index == q.index.global_index,
        u.has_prop(p) == u.has_prop(q),
        u.prop_value(p) == u.prop_value(q),
{
}

/// Reading a property after setting it gives back the value that was set.
pub proof fn lemma_read_after_set<S: Schema>(
    before: Universe<S>,
    after: Universe<S>,
    p: Prop<S::Value>,
    v: S::Value,
)
    requires
        Universe::<S>::set_value(before, after, p, v),
        before.has_prop(p),
    ensures
        after.has_prop(p),
        after.prop_value(p) == v,
{
}

/// Setting a property leaves the value of every property at another place unchanged.
pub proof fn lemma_set_leaves_others<S: Schema>(
    before: Universe<S>,
    after: Universe<S>,
    p: Prop<S::Value>,
    q: Prop<S::Value>,
    v: S::Value,
)
    requires
        Universe::<S>::set_value(before, after, p, v),
        before.has_prop(p),
        before.has_prop(q),
        q.index.domain_id.0 != p.index.domain_id.0 || q.index.domained_index.0
            != p.index.domained_index.0,
    ensures
        after.has_prop(q),
        after.prop_value(q) == before.prop_value(q),
{
}

/// A registered property is held by every instance of its domain that was made
/// with the registry's current record of the domain, starting as a clone of the
/// property's initial value.
pub proof fn lemma_instance_has_property<S: Schema>(
    globals: GlobalProperties<S>,
    u: Universe<S>,
    p: Prop<S::Value>,
)
    requires
        globals.wf(),
        p.indexed_by(globals),
        p.index.domain_id.0 < u.domains@.len(),
        u.domains@[p.index.domain_id.0 as int] matches MaybeDomain::Domain(inst) && instance_of(
            globals.domains@[p.index.domain_id.0 as int],
            globals.gid2producer@,
            inst,
        ),
    ensures
        u.has_prop(p),
        vstd::pervasive::cloned(
            globals.gid2producer@[p.index.global_index.0 as int].init,
            u.prop_value(p),
        ),
{
    let dix = p.index.domain_id.0 as int;
    let did = p.index.domained_index.0 as int;
    let gid = p.index.global_index.0 as int;
    let d = globals.domains@[dix];
    assert(globals.wf_domain(dix));
    let t = globals.did_slot(dix, p.name@)->0;
    assert(d.did_names()[t] == p.name@);
    let (pn, pdid) = d.name2did@[t];
    assert(pdid.0 == did);
    let member = d.property_members@[did].0 as int;
    assert(globals.gid_names()[member] == p.name@);
    lemma_index_of_distinct(globals.gid_names(), member);
}

/// Every registered property of a domain that a new universe was made with is
/// accessible in it, and starts as a clone of the property's initial value.
pub proof fn lemma_new_universe_has_property<S: Schema>(
    globals: GlobalProperties<S>,
    names: Seq<crate::domain::DomainName>,
    u: Universe<S>,
    p: Prop<S::Value>,
)
    requires
        globals.wf(),
        fresh_domains(globals, names, u.domains@),
        p.indexed_by(globals),
        listed(names, p.domain_name@),
    ensures
        u.has_prop(p),
        vstd::pervasive::cloned(
            globals.gid2producer@[p.index.global_index.0 as int].init,
            u.prop_value(p),
        ),
{
    let dix = p.index.domain_id.0 as int;
    assert(globals.domain_names()[dix] == p.domain_name@);
    assert(u.domains@[dix] matches MaybeDomain::Domain(inst) && instance_of(
        globals.domains@[dix],
        globals.gid2producer@,
        inst,
    ));
    lemma_instance_has_property(globals, u, p);
}

} // verus!

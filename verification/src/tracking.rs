//! Selections of rows: all of them, or these ones.

use vstd::prelude::*;
use crate::index::{GenericRowId, sort_rows, sorted_rows};
use crate::any_slice::AnySliceRef;
use crate::event::{Event, FallbackHandler, Function, RowRemover, handler_kind, handler_needs_sort, MAX_EVENT_TYPES};
use crate::tables::Guarantee;
use crate::{Schema, Universe};
use core::marker::PhantomData;
use std::collections::HashMap;

verus! {

/// Names the type parameter of a parameterized type.
pub trait GetParam {
    type T;
}

impl<T> GetParam for GenericRowId<T> {
    type T = T;
}

/// Indicates whether all rows have been selected, or only some of them.
#[derive(Debug, Clone, Copy)]
pub enum Select<I> {
    All,
    These(I),
}

/// A selection of rows as a slice.
pub type SelectRows<'a, T> = Select<&'a [GenericRowId<T>]>;

/// A selection of rows, owned.
pub type SelectOwned<T> = Select<Vec<GenericRowId<T>>>;

/// A selection of rows of some table.
pub type SelectAny<'a> = Select<AnySliceRef<'a>>;

impl<I> Select<I> {
    /// Applies `f` to the selected rows.
    pub fn map<F: FnOnce(I) -> R, R>(self, f: F) -> (r: Select<R>)
        requires
            self matches Select::These(rows) ==> call_requires(f, (rows,)),
        ensures
            self is All ==> r is All,
            self matches Select::These(rows) ==> (r matches Select::These(x) && call_ensures(f, (rows,), x)),
    {
        match self {
            Select::All => Select::All,
            Select::These(rows) => Select::These(f(rows)),
        }
    }

    pub fn as_ref(&self) -> (r: Select<&I>)
        ensures
            *self is All ==> r is All,
            *self matches Select::These(rows) ==> (r matches Select::These(x) && *x == rows),
    {
        match self {
            Select::All => Select::All,
            Select::These(rows) => Select::These(rows),
        }
    }

    pub fn as_mut(&mut self) -> (r: Select<&mut I>)
        ensures
            *old(self) is All ==> r is All && *final(self) is All,
            *old(self) matches Select::These(rows) ==> (r matches Select::These(x) && *x == rows
                && *final(self) == Select::These(*final(x))),
    {
        match self {
            Select::All => Select::All,
            Select::These(rows) => Select::These(rows),
        }
    }

    /// The selected rows; the selection must not be `All`.
    pub fn unwrap(self) -> (r: I)
        requires
            self is These,
        ensures
            self == Select::These(r),
    {
        match self {
            Select::All => vstd::pervasive::unreached(),
            Select::These(i) => i,
        }
    }

    pub fn is_all(&self) -> (r: bool)
        ensures
            r == (*self is All),
    {
        match self {
            Select::All => true,
            _ => false,
        }
    }
}

impl<'a, T: 'static> Select<&'a [GenericRowId<T>]> {
    /// The selection, with the rows' type erased.
    pub fn as_any(&self) -> (r: SelectAny<'a>)
        ensures
            *self is All ==> r is All,
            *self matches Select::These(rows) ==> (r matches Select::These(x) && x.spec_len() == rows@.len()),
    {
        match self {
            Select::All => Select::All,
            Select::These(rows) => Select::These(AnySliceRef::from(*rows)),
        }
    }

    /// Whether no row is selected.
    pub fn is_empty(&self) -> (r: bool)
        ensures
            *self is All ==> !r,
            *self matches Select::These(rows) ==> r == (rows@.len() == 0),
    {
        match self {
            Select::All => false,
            Select::These(rows) => rows.len() == 0,
        }
    }

    /// An owned copy of the selection.
    pub fn to_owned(self) -> (r: SelectOwned<T>)
        ensures
            self is All ==> r is All,
            self matches Select::These(rows) ==> (r matches Select::These(v) && v@ == rows@),
    {
        match self {
            Select::All => Select::All,
            Select::These(rows) => {
                let mut v: Vec<GenericRowId<T>> = Vec::new();
                let mut k: usize = 0;
                while k < rows.len()
                    invariant
                        0 <= k <= rows@.len(),
                        v@ == rows@.subrange(0, k as int),
                    decreases rows@.len() - k,
                {
                    v.push(rows[k]);
                    k = k + 1;
                }
                assert(rows@.subrange(0, rows@.len() as int) =~= rows@);
                Select::These(v)
            },
        }
    }
}

impl<T> Select<Vec<GenericRowId<T>>> {
    /// The selection, as a slice.
    pub fn as_slice<'a>(&'a self) -> (r: SelectRows<'a, T>)
        ensures
            *self is All ==> r is All,
            *self matches Select::These(v) ==> (r matches Select::These(s) && s@ == v@),
    {
        match self {
            Select::All => Select::All,
            Select::These(rows) => Select::These(rows.as_slice()),
        }
    }

    /// Sorts the selected rows by index.
    pub fn sort(&mut self)
        ensures
            *old(self) is All ==> *final(self) is All,
            *old(self) matches Select::These(v) ==> (*final(self) matches Select::These(w) && sorted_rows(w@)
                && w@.to_multiset() == v@.to_multiset()),
    {
        match self {
            Select::All => {},
            Select::These(rows) => sort_rows(rows),
        }
    }

    /// Adds a row to the selection (a selection of all rows stays so).
    pub fn push(&mut self, row: GenericRowId<T>)
        ensures
            *old(self) is All ==> *final(self) is All,
            *old(self) matches Select::These(v) ==> (*final(self) matches Select::These(w) && w@ == v@.push(row)),
    {
        match self {
            Select::All => {},
            Select::These(rows) => rows.push(row),
        }
    }

    /// Makes room for `n` more rows.
    pub fn reserve(&mut self, n: usize)
        ensures
            *old(self) is All ==> *final(self) is All,
            *old(self) matches Select::These(v) ==> (*final(self) matches Select::These(w) && w@ == v@),
    {
        match self {
            Select::All => {},
            Select::These(rows) => rows.reserve(n),
        }
    }
}

/// The rows of a selection, one after the other: those of `all` when all rows
/// are selected.
pub enum SelectIter<'a, I, T> {
    All(I),
    These(&'a [GenericRowId<T>], usize),
}

impl<'a, T> Select<&'a [GenericRowId<T>]> {
    /// Walks the selected rows, or the rows `all()` gives if all were selected.
    pub fn iter_or_all_with<I: Iterator<Item = GenericRowId<T>>, F: FnOnce() -> I>(self, f: F) -> (r: SelectIter<'a, I, T>)
        requires
            self is All ==> call_requires(f, ()),
        ensures
            self is All ==> (r matches SelectIter::All(it) && call_ensures(f, (), it)),
            self matches Select::These(rows) ==> r == SelectIter::<I, T>::These(rows, 0),
    {
        match self {
            Select::All => SelectIter::All(f()),
            Select::These(rows) => SelectIter::These(rows, 0),
        }
    }

    /// Walks the selected rows, or those of `all` if all were selected.
    pub fn iter_or_all<I: Iterator<Item = GenericRowId<T>>>(self, all: I) -> (r: SelectIter<'a, I, T>)
        ensures
            self is All ==> r == SelectIter::<I, T>::All(all),
            self matches Select::These(rows) ==> r == SelectIter::<I, T>::These(rows, 0),
    {
        match self {
            Select::All => SelectIter::All(all),
            Select::These(rows) => SelectIter::These(rows, 0),
        }
    }
}

impl<'a, I: Iterator<Item = GenericRowId<T>>, T> SelectIter<'a, I, T> {
    /// The next selected row.
    pub fn next(&mut self) -> (r: Option<GenericRowId<T>>)
        ensures
            *old(self) matches SelectIter::These(rows, pos) ==> if pos < rows@.len() {
                r == Some(rows@[pos as int]) && *final(self) == SelectIter::<I, T>::These(rows, (pos + 1) as usize)
            } else {
                r is None && *final(self) == *old(self)
            },
            *old(self) is All ==> *final(self) is All,
    {
        match self {
            SelectIter::All(it) => it.next(),
            SelectIter::These(rows, pos) => {
                if *pos < rows.len() {
                    let x = rows[*pos];
                    *pos = *pos + 1;
                    Some(x)
                } else {
                    None
                }
            },
        }
    }
}

/// `Tracker`s are notified of structural changes to the rows of a foreign table,
/// which must be consistent.
pub trait Tracker {
    /// The row type of the foreign table.
    type Foreign;

    /// Whether the tracker is interested in events like `event`.
    spec fn considers(&self, event: Event) -> bool;

    /// Whether the tracker wants the rows it is handed sorted.
    spec fn wants_sorted(&self) -> bool;

    /// Whether the tracker is interested in events like `event`.
    fn consider(&self, event: Event) -> (r: bool)
        ensures
            r == self.considers(event),
    ;

    /// If this returns `true`, the rows given to `handle` are sorted; otherwise
    /// their order is undefined.
    fn sort(&self) -> (r: bool)
        ensures
            r == self.wants_sorted(),
    ;

    /// Something has happened to the given foreign rows.
    fn handle<S: Schema>(
        &self,
        universe: &Universe<S>,
        event: Event,
        rows: SelectRows<Self::Foreign>,
        handler: &FallbackHandler<S::Handler>,
    );
}

/// The map that a sequence of `(old, new)` row pairs describes: later pairs win.
pub open spec fn remap_pairs<T>(s: Seq<(GenericRowId<T>, GenericRowId<T>)>) -> Map<usize, usize>
    decreases s.len(),
{
    if s.len() == 0 {
        Map::empty()
    } else {
        remap_pairs(s.drop_last()).insert(s.last().0.i, s.last().1.i)
    }
}

/// Whether some tracker of `trackers` considers `event` and wants sorted rows.
pub open spec fn some_tracker_sorts<Tr: Tracker>(trackers: Seq<Tr>, event: Event) -> bool {
    exists|k: int| 0 <= k < trackers.len() && #[trigger] trackers[k].considers(event) && trackers[k].wants_sorted()
}

/// The trackers of a table and the remapping of its rows during a flush.
pub struct Flush<T, Tr> {
    trackers: Vec<Tr>,
    identity_remapping: bool,
    pub remapped: HashMap<usize, usize>,
    t: PhantomData<T>,
}

impl<T, Tr: Tracker<Foreign = T>> Flush<T, Tr> {
    /// The registered trackers.
    pub closed spec fn tracker_list(&self) -> Seq<Tr> {
        self.trackers@
    }

    /// Where rows moved: old row index to new row index.
    pub closed spec fn remapping(&self) -> Map<usize, usize> {
        self.remapped@
    }

    /// Whether every row is mapped to itself.
    pub closed spec fn is_identity(&self) -> bool {
        self.identity_remapping
    }

    /// No trackers, no remapping.
    pub fn new() -> (r: Self)
        ensures
            r.tracker_list().len() == 0,
            !r.is_identity(),
            r.remapping() == Map::<usize, usize>::empty(),
    {
        Flush { trackers: Vec::new(), identity_remapping: false, remapped: HashMap::new(), t: PhantomData }
    }

    /// Records where rows moved: each `(old, new)` pair; the earlier remapping is
    /// forgotten. Nothing changes under the identity remapping.
    pub fn set_remapping(&mut self, remap: &[(GenericRowId<T>, GenericRowId<T>)])
        ensures
            final(self).tracker_list() == old(self).tracker_list(),
            final(self).is_identity() == old(self).is_identity(),
            old(self).is_identity() ==> final(self).remapping() == old(self).remapping(),
            !old(self).is_identity() ==> final(self).remapping() == remap_pairs(remap@),
    {
        broadcast use vstd::std_specs::hash::group_hash_axioms;
        if self.identity_remapping {
            return;
        }
        self.remapped.clear();
        let mut k: usize = 0;
        while k < remap.len()
            invariant
                0 <= k <= remap@.len(),
                self.remapping() == remap_pairs(remap@.subrange(0, k as int)),
                self.trackers@ == old(self).trackers@,
                self.identity_remapping == old(self).identity_remapping,
            decreases remap@.len() - k,
        {
            let (o, n) = remap[k];
            self.remapped.insert(o.i, n.i);
            proof {
                assert(remap@.subrange(0, k + 1).drop_last() =~= remap@.subrange(0, k as int));
            }
            k = k + 1;
        }
        assert(remap@.subrange(0, remap@.len() as int) =~= remap@);
    }

    /// Where `old` moved: itself under the identity remapping, else what the
    /// remapping says.
    pub fn remap(&self, old: GenericRowId<T>) -> (r: Option<GenericRowId<T>>)
        ensures
            self.is_identity() ==> r == Some(old),
            !self.is_identity() ==> match r {
                Some(n) => self.remapping().contains_key(old.i) && self.remapping()[old.i] == n.i,
                None => !self.remapping().contains_key(old.i),
            },
    {
        broadcast use vstd::std_specs::hash::group_hash_axioms;
        if self.identity_remapping {
            return Some(old);
        }
        match self.remapped.get(&old.i) {
            Some(n) => Some(GenericRowId::new(*n)),
            None => None,
        }
    }

    /// Whether some row is remapped.
    pub fn has_remapping(&self) -> (r: bool)
        ensures
            r == (self.remapping().len() > 0),
    {
        broadcast use vstd::std_specs::hash::group_hash_axioms;
        !self.remapped.is_empty()
    }

    /// From now on every row maps to itself.
    pub fn set_identity_remap(&mut self)
        ensures
            final(self).is_identity(),
            final(self).tracker_list() == old(self).tracker_list(),
            final(self).remapping() == old(self).remapping(),
    {
        self.identity_remapping = true;
    }

    /// Adds a tracker. The foreign table, whose guarantee is `guarantee`, must be
    /// consistent.
    pub fn register_tracker(&mut self, tracker: Tr, guarantee: Guarantee)
        requires
            guarantee.consistent,
        ensures
            final(self).tracker_list() == old(self).tracker_list().push(tracker),
            final(self).is_identity() == old(self).is_identity(),
            final(self).remapping() == old(self).remapping(),
    {
        self.trackers.push(tracker);
    }

    /// Whether no tracker is registered.
    pub fn trackers_is_empty(&self) -> (r: bool)
        ensures
            r == (self.tracker_list().len() == 0),
    {
        self.trackers.len() == 0
    }
}

impl<T: 'static, Tr: Tracker<Foreign = T>> Flush<T, Tr> {
    /// Sends the rows that `event` selected to each tracker that considers it,
    /// then, with `include_self`, to the event's handler acting on the table itself
    /// (`table`, whose guarantee is `guarantee`). The rows are sorted once, before
    /// the first tracker (or the handler) that wants them sorted; a selection of all
    /// rows needs no sorting. Pushes and deletions cannot be flushed together.
    pub fn do_flush<S: Schema, R: RowRemover>(
        &self,
        universe: &Universe<S>,
        table: &R,
        guarantee: Guarantee,
        event: Event,
        pushed: bool,
        delete: bool,
        select: SelectOwned<T>,
        include_self: bool,
    ) -> (r: SelectOwned<T>) where S::Handler: Function
        requires
            !(pushed && delete),
            !(event.is_removal && event.is_creation),
            universe.event_handlers.wf(),
            (event.id as int) < MAX_EVENT_TYPES,
            include_self ==> handler_kind(universe.event_handlers.fallbacks@[event.id as int]) != 2,
        ensures
            select is All ==> r is All,
            select matches Select::These(v) ==> (r matches Select::These(w) && w@.to_multiset()
                == v@.to_multiset() && if some_tracker_sorts(self.tracker_list(), event) || (include_self
                && handler_needs_sort(universe.event_handlers.fallbacks@[event.id as int], guarantee)) {
                sorted_rows(w@)
            } else {
                w@ == v@
            }),
    {
        let function = universe.event_handlers.get(event);
        let ghost orig = select;
        let mut select = select;
        let mut sorted = select.is_all();
        let mut k: usize = 0;
        while k < self.trackers.len()
            invariant
                0 <= k <= self.trackers@.len(),
                orig is All ==> select is All && sorted,
                *function == universe.event_handlers.fallbacks@[event.id as int],
                orig matches Select::These(v) ==> (select matches Select::These(w) && w@.to_multiset()
                    == v@.to_multiset() && sorted == some_tracker_sorts(self.trackers@.subrange(0, k as int), event)
                    && if sorted {
                    sorted_rows(w@)
                } else {
                    w@ == v@
                }),
            decreases self.trackers@.len() - k,
        {
            let tracker = &self.trackers[k];
            let ghost before = self.trackers@.subrange(0, k as int);
            let ghost next = self.trackers@.subrange(0, k + 1);
            proof {
                assert forall|j: int| 0 <= j < k implies next[j] == before[j] by {}
                assert(next[k as int] == self.trackers@[k as int]);
                if some_tracker_sorts(before, event) {
                    let j = choose|j: int| 0 <= j < before.len() && #[trigger] before[j].considers(event) && before[j].wants_sorted();
                    assert(next[j] == before[j]);
                }
            }
            if tracker.consider(event) {
                if !sorted && tracker.sort() {
                    sorted = true;
                    select.sort();
                }
                tracker.handle(universe, event, select.as_slice(), function);
            }
            proof {
                if orig is These {
                    if some_tracker_sorts(next, event) && !some_tracker_sorts(before, event) {
                        let j = choose|j: int| 0 <= j < next.len() && #[trigger] next[j].considers(event) && next[j].wants_sorted();
                        if j < k {
                            assert(before[j] == next[j]);
                        }
                    }
                }
            }
            k = k + 1;
        }
        proof {
            assert(self.trackers@.subrange(0, self.trackers@.len() as int) =~= self.trackers@);
        }
        if include_self {
            if !sorted && function.needs_sort(guarantee) {
                select.sort();
            }
            function.handle(universe, table, event, select.as_slice().as_any());
        }
        select
    }
}

} // verus!

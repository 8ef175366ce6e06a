//! Searchable columns: a column wrapped with an index from each element to the
//! rows that hold it. Elements of such a column cannot be modified in place.

use vstd::prelude::*;
use std::collections::BTreeMap;
use core::marker::PhantomData;
use crate::columns::TCol;
use crate::index::GenericRowId;
use vstd::laws_cmp::obeys_cmp;
use vstd::std_specs::cmp::{OrdSpec, PartialEqSpec, PartialOrdSpec};
use vstd::std_specs::iter::IteratorSpec;

verus! {

broadcast use {
    vstd::laws_cmp::group_laws_cmp,
    vstd::std_specs::btree::axiom_deref_key_removed,
    vstd::std_specs::btree::axiom_spec_keys_iter,
};

/// The index entries of the rows of `v` that are not `dead`: each element paired
/// with its row.
pub open spec fn entries<E>(v: Seq<E>, dead: Set<usize>) -> Set<(E, usize)> {
    Set::new(|p: (E, usize)| p.1 < v.len() && !dead.contains(p.1) && p.0 == v[p.1 as int])
}

/// The element of `v` at row `i`.
pub open spec fn elem_at<E>(v: Seq<E>, i: usize) -> E {
    v[i as int]
}

/// The next item of `it`.
fn advance<I: Iterator>(it: &mut I) -> (r: Option<I::Item>)
    ensures
        (*final(it)).obeys_prophetic_iter_laws() == (*old(it)).obeys_prophetic_iter_laws(),
        (*final(it)).obeys_prophetic_iter_laws() ==> if (*old(it)).remaining().len() > 0 {
            (*final(it)).remaining() == (*old(it)).remaining().drop_first() && r == Some((*old(it)).remaining()[0])
        } else {
            r is None
        },
{
    it.next()
}

/// In increasing index keys, the keys that hold equal elements come in
/// increasing order of row.
proof fn lemma_same_key_rows_increase<E: Ord>(keys: Seq<&(E, usize)>, x: int, y: int, key: E)
    requires
        obeys_cmp::<E>(),
        vstd::std_specs::btree::increasing_seq(keys),
        0 <= x < y < keys.len(),
        keys[x].0.eq_spec(&key),
        keys[y].0.eq_spec(&key),
    ensures
        keys[x].1 < keys[y].1,
{
    broadcast use vstd::std_specs::btree::axiom_increasing_seq_meaning;
    assert(obeys_cmp::<(E, usize)>());
    assert(obeys_cmp::<&(E, usize)>());
    assert((&keys[x]).cmp_spec(&keys[y]) is Less);
    reveal(vstd::laws_eq::obeys_eq_spec_properties);
    reveal(vstd::laws_cmp::obeys_cmp_partial_ord);
    reveal(vstd::laws_cmp::obeys_cmp_ord);
    assert(key.eq_spec(&keys[y].0));
    assert(keys[x].0.eq_spec(&keys[y].0));
    assert(keys[x].0.partial_cmp_spec(&keys[y].0) == Some(keys[x].0.cmp_spec(&keys[y].0)));
}

/// A column together with an index of its elements.
pub struct BTreeIndex<C: TCol, T> {
    inner: C,
    index: BTreeMap<(C::Element, usize), ()>,
    dead: Ghost<Set<usize>>,
    t: PhantomData<T>,
}

impl<C: TCol, T> BTreeIndex<C, T> where C::Element: Ord + Copy {
    /// The rows that were deleted (and are no longer found).
    pub closed spec fn deleted_rows(&self) -> Set<usize> {
        self.dead@
    }

    /// The rows holding an element equal to `key` and not deleted.
    pub open spec fn holds(&self, key: C::Element, i: usize) -> bool {
        &&& i < self.view().len()
        &&& !self.deleted_rows().contains(i)
        &&& elem_at(self.view(), i).eq_spec(&key)
    }

    /// The rows that hold `key`, each once, as far as the element type's ordering
    /// is a lawful total order.
    pub fn find(&self, key: C::Element) -> (r: Vec<GenericRowId<T>>)
        requires
            self.wf(),
        ensures
            obeys_cmp::<C::Element>() ==> {
                &&& forall|j: int| 0 <= j < r@.len() ==> self.holds(key, #[trigger] r@[j].i)
                &&& forall|i: usize| #[trigger] self.holds(key, i) ==> exists|j: int| 0 <= j < r@.len() && r@[j].i == i
                &&& forall|a: int, b: int| 0 <= a < b < r@.len() ==> r@[a].i < r@[b].i
            },
    {
        let ghost keys = vstd::std_specs::btree::spec_keys_iter(&self.index).remaining();
        let mut out: Vec<GenericRowId<T>> = Vec::new();
        let ghost mut taken: Seq<int> = Seq::empty();
        let mut iter = self.index.keys();
        let n = self.index.len();
        let mut step: usize = 0;
        let ghost mut pos: int = 0;
        proof {
            if obeys_cmp::<C::Element>() {
                assert(obeys_cmp::<(C::Element, usize)>());
                assert(vstd::std_specs::btree::key_obeys_cmp_spec::<(C::Element, usize)>());
            }
        }
        while step < n
            invariant
                step <= n,
                obeys_cmp::<C::Element>() ==> n == keys.len(),
                pos == step,
                obeys_cmp::<C::Element>() ==> iter.remaining() == keys.skip(pos),
                out@.len() == taken.len(),
                forall|j: int| 0 <= j < taken.len() ==> 0 <= #[trigger] taken[j] < step,
                forall|a: int, b: int| 0 <= a < b < taken.len() ==> taken[a] < taken[b],
                obeys_cmp::<C::Element>() ==> forall|j: int| 0 <= j < taken.len() ==> (#[trigger] out@[j]).i == keys[taken[j]].1,
                obeys_cmp::<C::Element>() ==> forall|j: int| 0 <= j < taken.len() ==> (#[trigger] keys[taken[j]]).0.eq_spec(&key),
                obeys_cmp::<C::Element>() ==> forall|m: int|
                    0 <= m < step && (#[trigger] keys[m]).0.eq_spec(&key) ==> exists|j: int| 0 <= j < taken.len() && taken[j] == m,
            decreases n - step,
        {
            match advance(&mut iter) {
                Some(k) => {
                    proof {
                        if obeys_cmp::<C::Element>() {
                            assert(*k == *keys[pos]);
                        }
                    }
                    if k.0 == key {
                        proof {
                            let ghost before = taken;
                            taken = taken.push(pos);
                            assert(taken[taken.len() - 1] == pos);
                            if obeys_cmp::<C::Element>() {
                                assert forall|m: int| 0 <= m < pos && (#[trigger] keys[m]).0.eq_spec(&key) implies exists|j: int|
                                    0 <= j < taken.len() && taken[j] == m by {
                                    let j = choose|j: int| 0 <= j < before.len() && before[j] == m;
                                    assert(taken[j] == before[j]);
                                }
                            }
                        }
                        out.push(GenericRowId::new(k.1));
                    }
                    step = step + 1;
                    proof {
                        pos = pos + 1;
                    }
                },
                None => {
                    proof {
                        pos = pos + (n - step);
                    }
                    step = n;
                },
            }
        }
        proof {
            if obeys_cmp::<C::Element>() {
                assert(keys.unref().to_set() == self.index@.dom());
                assert forall|j: int| 0 <= j < out@.len() implies self.holds(key, #[trigger] out@[j].i) by {
                    let p = *keys[taken[j]];
                    assert(keys.unref()[taken[j]] == p);
                    assert(keys.unref().to_set().contains(p));
                }
                assert forall|i: usize| #[trigger] self.holds(key, i) implies exists|j: int| 0 <= j < out@.len() && out@[j].i == i by {
                    let p = (elem_at(self.view(), i), i);
                    assert(entries(self.view(), self.dead@).contains(p));
                    assert(keys.unref().to_set().contains(p));
                    let m = keys.unref().index_of(p);
                    assert(keys.unref()[m] == p);
                    assert(*keys[m] == p);
                    let j = choose|j: int| 0 <= j < taken.len() && taken[j] == m;
                    assert(out@[j].i == i);
                }
                assert(vstd::std_specs::btree::increasing_seq(keys));
                assert forall|a: int, b: int| 0 <= a < b < out@.len() implies out@[a].i < out@[b].i by {
                    lemma_same_key_rows_increase(keys, taken[a], taken[b], key);
                }
            }
        }
        out
    }
}

impl<C: TCol, T> BTreeIndex<C, T> where C::Element: Ord + Copy {
    /// Drops row `i` from the index: it is deleted.
    fn delete_entry(&mut self, i: usize)
        requires
            old(self).wf(),
            i < old(self).view().len(),
        ensures
            final(self).wf(),
            final(self).view() == old(self).view(),
            final(self).dead@ == old(self).dead@.insert(i),
    {
        let old_e = *self.inner.unchecked_index(i);
        self.index.remove(&(old_e, i));
        self.inner.deleted(i);
        self.dead = Ghost(self.dead@.insert(i));
        assert(self.index@.dom() =~= entries(self.inner.view(), self.dead@) || !obeys_cmp::<C::Element>());
    }
}

impl<C: TCol, T> TCol for BTreeIndex<C, T> where C::Element: Ord + Copy {
    type Element = C::Element;

    closed spec fn view(&self) -> Seq<C::Element> {
        self.inner.view()
    }

    closed spec fn wf(&self) -> bool {
        &&& self.inner.wf()
        &&& forall|i: usize| #[trigger] self.dead@.contains(i) ==> i < self.inner.view().len()
        &&& obeys_cmp::<C::Element>() ==> self.index@.dom() == entries(self.inner.view(), self.dead@)
    }

    open spec fn allows_mut() -> bool {
        false
    }

    fn new() -> (r: Self)
        ensures
            r.deleted_rows() == Set::<usize>::empty(),
    {
        let r = BTreeIndex { inner: C::new(), index: BTreeMap::new(), dead: Ghost(Set::empty()), t: PhantomData };
        assert(r.index@.dom() =~= entries(r.inner.view(), r.dead@));
        r
    }

    fn len(&self) -> (r: usize) {
        self.inner.len()
    }

    fn truncate(&mut self, len: usize)
        ensures
            final(self).deleted_rows() == old(self).deleted_rows().filter(|k: usize| k < len),
    {
        let n = self.inner.len();
        let mut i: usize = len;
        while i < n
            invariant
                len <= i,
                n <= len ==> i == len,
                len <= n ==> i <= n,
                n == self.inner.view().len(),
                self.wf(),
                self.inner.view() == old(self).inner.view(),
                forall|k: usize| len <= k < i ==> #[trigger] self.dead@.contains(k),
                forall|k: usize| #[trigger] self.dead@.contains(k) ==> old(self).dead@.contains(k) || len <= k,
                forall|k: usize| #[trigger] old(self).dead@.contains(k) ==> self.dead@.contains(k),
                forall|k: usize| #[trigger] old(self).dead@.contains(k) ==> k < n,
            decreases n - i,
        {
            self.delete_entry(i);
            i = i + 1;
        }
        let ghost v = self.inner.view();
        let ghost dead_before = self.dead@;
        self.inner.truncate(len);
        if len < n {
            self.dead = Ghost(self.dead@.filter(|k: usize| k < len));
            proof {
                assert(entries(v, dead_before) =~= entries(self.inner.view(), self.dead@));
            }
        }
        assert(self.dead@ =~= old(self).dead@.filter(|k: usize| k < len));
    }

    fn unchecked_index(&self, i: usize) -> (r: &C::Element) {
        self.inner.unchecked_index(i)
    }

    fn unchecked_index_mut(&mut self, i: usize) -> (r: &mut C::Element) {
        vstd::pervasive::unreached()
    }

    fn reserve(&mut self, n: usize) {
        self.inner.reserve(n);
    }

    fn clear(&mut self)
        ensures
            final(self).deleted_rows() == Set::<usize>::empty(),
    {
        self.inner.clear();
        self.index.clear();
        self.dead = Ghost(Set::empty());
        assert(self.index@.dom() =~= entries(self.inner.view(), self.dead@));
    }

    fn push(&mut self, v: C::Element)
        ensures
            final(self).deleted_rows() == old(self).deleted_rows(),
    {
        let i = self.inner.len();
        self.inner.push(v);
        self.index.insert((v, i), ());
        assert(self.index@.dom() =~= entries(self.inner.view(), self.dead@) || !obeys_cmp::<C::Element>());
    }

    fn unchecked_swap_out(&mut self, i: usize, new: &mut C::Element)
        ensures
            final(self).deleted_rows() == old(self).deleted_rows().remove(i),
    {
        let old_e = *self.inner.unchecked_index(i);
        self.index.remove(&(old_e, i));
        self.index.insert((*new, i), ());
        self.inner.unchecked_swap_out(i, new);
        self.dead = Ghost(self.dead@.remove(i));
        assert(self.index@.dom() =~= entries(self.inner.view(), self.dead@) || !obeys_cmp::<C::Element>());
    }

    fn unchecked_swap(&mut self, a: usize, b: usize)
        ensures
            final(self).deleted_rows() == old(self).deleted_rows().remove(a).remove(b),
    {
        let old_a = *self.inner.unchecked_index(a);
        let old_b = *self.inner.unchecked_index(b);
        self.index.remove(&(old_a, a));
        self.index.remove(&(old_b, b));
        self.index.insert((old_a, b), ());
        self.index.insert((old_b, a), ());
        self.inner.unchecked_swap(a, b);
        self.dead = Ghost(self.dead@.remove(a).remove(b));
        assert(self.index@.dom() =~= entries(self.inner.view(), self.dead@) || !obeys_cmp::<C::Element>());
    }

    fn deleted(&mut self, i: usize)
        ensures
            final(self).deleted_rows() == old(self).deleted_rows().insert(i),
    {
        self.delete_entry(i);
    }

    fn checked_index(&self, i: usize) -> (r: &C::Element) {
        self.inner.checked_index(i)
    }
}

} // verus!

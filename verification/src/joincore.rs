//! A helper for SQL-style merge joins: a sorted "right" sequence is walked in
//! step with the items of a sorted "left" sequence.

use vstd::prelude::*;
use core::cmp::Ordering;
use vstd::std_specs::cmp::OrdSpec;

verus! {

/// What a step of the join found.
pub enum Join<T> {
    /// The outer/left item needs to be advanced.
    Next,
    /// The inner/right sequence has no more elements.
    Stop,
    /// A matching right element.
    Match(T),
}

/// The right items still to be joined, taken from the back of `v`.
pub open spec fn reversed<T>(v: Seq<T>) -> Seq<T> {
    Seq::new(v.len(), |i: int| v[v.len() - 1 - i])
}

/// `after` is what is left of `before` after one join step that returned `r`, when
/// comparing the left item with a right element `x` may give `o` exactly when
/// `rel(x, o)`: right elements smaller than the left item were skipped; then the step
/// stopped at the end, or before a greater element (`Next`), or took an equal one
/// (`Match`).
pub open spec fn join_step<T>(
    before: Seq<T>,
    after: Seq<T>,
    r: Join<T>,
    rel: spec_fn(T, Ordering) -> bool,
) -> bool {
    let d = before.len() - after.len();
    &&& 0 <= d
    &&& after == before.skip(d)
    &&& match r {
        Join::Stop => after.len() == 0 && forall|j: int| 0 <= j < d ==> #[trigger] rel(before[j], Ordering::Greater),
        Join::Next => after.len() > 0 && rel(after[0], Ordering::Less) && forall|j: int|
            0 <= j < d ==> #[trigger] rel(before[j], Ordering::Greater),
        Join::Match(x) => d >= 1 && x == before[d - 1] && rel(x, Ordering::Equal) && forall|j: int|
            0 <= j < d - 1 ==> #[trigger] rel(before[j], Ordering::Greater),
    }
}

/// Comparing `left` with a right element `x` by `Ord` gives `o`.
pub open spec fn ord_rel<T: Ord>(left: T) -> spec_fn(T, Ordering) -> bool {
    |x: T, o: Ordering| o == left.cmp_spec(&x)
}

/// A comparison that gives at most one answer for each right element.
pub open spec fn functional_rel<T>(rel: spec_fn(T, Ordering) -> bool) -> bool {
    forall|x: T, o1: Ordering, o2: Ordering| #[trigger] rel(x, o1) && #[trigger] rel(x, o2) ==> o1 == o2
}

/// A join step by a comparison with at most one answer per element is
/// determined: two steps from the same right elements return the same and leave
/// the same elements.
pub proof fn lemma_join_step_unique<T>(
    before: Seq<T>,
    after1: Seq<T>,
    r1: Join<T>,
    after2: Seq<T>,
    r2: Join<T>,
    rel: spec_fn(T, Ordering) -> bool,
)
    requires
        functional_rel(rel),
        join_step(before, after1, r1, rel),
        join_step(before, after2, r2, rel),
    ensures
        after1 == after2,
        r1 == r2,
{
    let d1 = before.len() - after1.len();
    let d2 = before.len() - after2.len();
    lemma_step_not_shorter(before, after1, r1, after2, r2, rel);
    lemma_step_not_shorter(before, after2, r2, after1, r1, rel);
    match r1 {
        Join::Stop => match r2 {
            Join::Match(_) => {
                assert(rel(before[d1 - 1], Ordering::Greater));
                assert(rel(before[d1 - 1], Ordering::Equal));
            },
            _ => {},
        },
        Join::Next => match r2 {
            Join::Match(_) => {
                assert(rel(before[d1 - 1], Ordering::Greater));
                assert(rel(before[d1 - 1], Ordering::Equal));
            },
            _ => {},
        },
        Join::Match(_) => match r2 {
            Join::Match(_) => {},
            _ => {
                assert(rel(before[d1 - 1], Ordering::Greater));
                assert(rel(before[d1 - 1], Ordering::Equal));
            },
        },
    }
}

/// A step consumes no fewer right elements than another step by the same
/// comparison.
proof fn lemma_step_not_shorter<T>(
    before: Seq<T>,
    after1: Seq<T>,
    r1: Join<T>,
    after2: Seq<T>,
    r2: Join<T>,
    rel: spec_fn(T, Ordering) -> bool,
)
    requires
        functional_rel(rel),
        join_step(before, after1, r1, rel),
        join_step(before, after2, r2, rel),
    ensures
        before.len() - after1.len() >= before.len() - after2.len(),
{
    let d1 = before.len() - after1.len();
    let d2 = before.len() - after2.len();
    if d1 < d2 {
        match r1 {
            Join::Stop => {},
            Join::Next => {
                assert(after1[0] == before[d1]);
                if r2 is Match && d1 == d2 - 1 {
                    assert(rel(before[d1], Ordering::Equal));
                    assert(rel(before[d1], Ordering::Less));
                } else {
                    assert(rel(before[d1], Ordering::Greater));
                    assert(rel(before[d1], Ordering::Less));
                }
            },
            Join::Match(_) => {
                assert(rel(before[d1 - 1], Ordering::Equal));
                assert(rel(before[d1 - 1], Ordering::Greater));
            },
        }
    }
}

/// A step of `cmp` agrees with a step of `join` whose comparison gives what the
/// element type's `cmp` gives: from the same right elements, both return the same
/// and leave the same elements.
pub proof fn lemma_cmp_agrees_with_join<T: Ord>(
    before: Seq<T>,
    left: T,
    after_cmp: Seq<T>,
    r_cmp: Join<T>,
    after_join: Seq<T>,
    r_join: Join<T>,
    rel: spec_fn(T, Ordering) -> bool,
)
    requires
        join_step(before, after_cmp, r_cmp, ord_rel(left)),
        join_step(before, after_join, r_join, rel),
        forall|x: T, o: Ordering| #[trigger] rel(x, o) ==> o == left.cmp_spec(&x),
    ensures
        after_cmp == after_join,
        r_cmp == r_join,
{
    let both = |x: T, o: Ordering| o == left.cmp_spec(&x);
    assert(functional_rel(both));
    assert(join_step(before, after_cmp, r_cmp, both)) by {
        assert(ord_rel(left) == both);
    }
    let d = before.len() - after_join.len();
    assert(join_step(before, after_join, r_join, both)) by {
        match r_join {
            Join::Stop => {
                assert forall|j: int| 0 <= j < d implies #[trigger] both(before[j], Ordering::Greater) by {
                    assert(rel(before[j], Ordering::Greater));
                }
            },
            Join::Next => {
                assert(rel(after_join[0], Ordering::Less));
                assert forall|j: int| 0 <= j < d implies #[trigger] both(before[j], Ordering::Greater) by {
                    assert(rel(before[j], Ordering::Greater));
                }
            },
            Join::Match(x) => {
                assert(rel(x, Ordering::Equal));
                assert forall|j: int| 0 <= j < d - 1 implies #[trigger] both(before[j], Ordering::Greater) by {
                    assert(rel(before[j], Ordering::Greater));
                }
            },
        }
    }
    lemma_join_step_unique(before, after_cmp, r_cmp, after_join, r_join, both);
}

/// The right-hand side of a merge join.
pub struct JoinCore<T> {
    /// The remaining right elements, last first.
    right: Vec<T>,
}

impl<T> JoinCore<T> {
    /// The right elements not consumed yet, in order.
    pub closed spec fn rest(&self) -> Seq<T> {
        reversed(self.right@)
    }

    /// A join over the right elements `items`.
    pub fn new(items: Vec<T>) -> (r: Self)
        ensures
            r.rest() == items@,
    {
        let mut items = items;
        let ghost orig = items@;
        let mut right: Vec<T> = Vec::new();
        while items.len() > 0
            invariant
                items@ == orig.subrange(0, items@.len() as int),
                right@.len() + items@.len() == orig.len(),
                forall|i: int| 0 <= i < right@.len() ==> #[trigger] right@[i] == orig[orig.len() - 1 - i],
            decreases items@.len(),
        {
            let x = items.pop().unwrap();
            right.push(x);
        }
        let r = JoinCore { right };
        assert(r.rest() =~= orig);
        r
    }

    /// Advances the right side past elements that `cmp` finds smaller than
    /// `left_item` (for which it returns `Greater`), then stops at the end (`Stop`),
    /// stays before an element that is greater (`Next`), or takes an equal element
    /// (`Match`).
    pub fn join<L: Copy, F: Fn(L, &T) -> Ordering>(&mut self, left_item: L, cmp: F) -> (r: Join<T>)
        requires
            forall|x: &T| #[trigger] call_requires(cmp, (left_item, x)),
        ensures
            join_step(
                old(self).rest(),
                final(self).rest(),
                r,
                |x: T, o: Ordering| call_ensures(cmp, (left_item, &x), o),
            ),
    {
        let ghost start = self.rest();
        let ghost rel = |x: T, o: Ordering| call_ensures(cmp, (left_item, &x), o);
        loop
            invariant
                forall|x: &T| #[trigger] call_requires(cmp, (left_item, x)),
                rel == (|x: T, o: Ordering| call_ensures(cmp, (left_item, &x), o)),
                start == old(self).rest(),
                start.len() >= self.rest().len(),
                self.rest() == start.skip(start.len() - self.rest().len()),
                forall|j: int| 0 <= j < start.len() - self.rest().len() ==> #[trigger] rel(start[j], Ordering::Greater),
            decreases self.right@.len(),
        {
            let n = self.right.len();
            if n == 0 {
                return Join::Stop;
            }
            let o = cmp(left_item, &self.right[n - 1]);
            proof {
                assert(self.rest()[0] == self.right@[n - 1]);
                assert(rel(self.right@[n - 1], o));
            }
            match o {
                Ordering::Less => {
                    return Join::Next;
                },
                Ordering::Equal => {
                    let ghost before = self.rest();
                    let x = self.right.pop().unwrap();
                    proof {
                        assert(self.rest() =~= before.skip(1));
                        assert(self.rest() =~= start.skip(start.len() - self.rest().len()));
                        assert(x == before[0]);
                        assert(before[0] == start[start.len() - before.len()]);
                    }
                    return Join::Match(x);
                },
                Ordering::Greater => {
                    let ghost before = self.rest();
                    self.right.pop();
                    proof {
                        assert(self.rest() =~= before.skip(1));
                        assert(self.rest() =~= start.skip(start.len() - self.rest().len()));
                    }
                },
            }
        }
    }
}

impl<T: Ord> JoinCore<T> {
    /// A join step that compares with `Ord::cmp`.
    pub fn cmp(&mut self, left_item: &T) -> (r: Join<T>)
        ensures
            T::obeys_cmp_spec() ==> join_step(old(self).rest(), final(self).rest(), r, ord_rel(*left_item)),
    {
        let ghost start = self.rest();
        let ghost rel = ord_rel(*left_item);
        loop
            invariant
                rel == ord_rel(*left_item),
                start == old(self).rest(),
                start.len() >= self.rest().len(),
                self.rest() == start.skip(start.len() - self.rest().len()),
                T::obeys_cmp_spec() ==> forall|j: int| 0 <= j < start.len() - self.rest().len() ==> #[trigger] rel(start[j], Ordering::Greater),
            decreases self.right@.len(),
        {
            let n = self.right.len();
            if n == 0 {
                return Join::Stop;
            }
            let o = left_item.cmp(&self.right[n - 1]);
            proof {
                assert(self.rest()[0] == self.right@[n - 1]);
            }
            match o {
                Ordering::Less => {
                    return Join::Next;
                },
                Ordering::Equal => {
                    let ghost before = self.rest();
                    let x = self.right.pop().unwrap();
                    proof {
                        assert(self.rest() =~= before.skip(1));
                        assert(self.rest() =~= start.skip(start.len() - self.rest().len()));
                        assert(x == before[0]);
                        assert(before[0] == start[start.len() - before.len()]);
                    }
                    return Join::Match(x);
                },
                Ordering::Greater => {
                    let ghost before = self.rest();
                    self.right.pop();
                    proof {
                        assert(self.rest() =~= before.skip(1));
                        assert(self.rest() =~= start.skip(start.len() - self.rest().len()));
                    }
                },
            }
        }
    }
}

} // verus!

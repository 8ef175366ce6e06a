//! A vector stored in fixed-size chunks, so that growing it never moves the
//! elements already stored.

use vstd::prelude::*;
use vstd::arithmetic::power2::{pow2, lemma_pow2_pos};
use vstd::bits::{low_bits_mask, lemma_usize_shr_is_div, lemma_usize_shl_is_mul, lemma_usize_pow2_no_overflow, lemma_usize_low_bits_mask_is_mod};
use vstd::arithmetic::div_mod::{lemma_fundamental_div_mod, lemma_fundamental_div_mod_converse, lemma_mod_bound};

verus! {

/// A vector of `D`s kept in chunks of `2^bits` elements each.
pub struct ArrayVec<D> {
    bits: usize,
    elements: usize,
    data: Vec<Vec<D>>,
}

/// `i` is `i / p` chunks of `p` elements, then `i % p` more.
proof fn lemma_div_mod(i: int, p: int)
    requires
        p > 0,
        i >= 0,
    ensures
        i == (i / p) * p + i % p,
        0 <= i % p < p,
        i / p >= 0,
{
    lemma_fundamental_div_mod(i, p);
    lemma_mod_bound(i, p);
    assert(p * (i / p) == (i / p) * p) by (nonlinear_arith);
    assert(i / p >= 0) by (nonlinear_arith)
        requires
            p > 0,
            i >= 0,
            i == (i / p) * p + i % p,
            0 <= i % p < p,
    ;
}

/// Position `c * p + o`, with `o < p`, is offset `o` of chunk `c`.
proof fn lemma_position(c: int, o: int, p: int)
    requires
        p > 0,
        0 <= o < p,
    ensures
        (c * p + o) / p == c,
        (c * p + o) % p == o,
{
    lemma_fundamental_div_mod_converse(c * p + o, p, c, o);
}

impl<D> ArrayVec<D> {
    /// The log2 of the chunk size.
    pub closed spec fn bits(&self) -> nat {
        self.bits as nat
    }

    /// The number of elements per chunk: `2^bits`.
    pub open spec fn chunk(&self) -> nat {
        pow2(self.bits())
    }

    /// The elements, in order.
    pub closed spec fn view(&self) -> Seq<D> {
        Seq::new(
            self.elements as nat,
            |i: int| self.data@[i / (self.chunk() as int)]@[i % (self.chunk() as int)],
        )
    }

    /// The chunks are all full but the last, which holds at least one element; the
    /// element count matches.
    pub closed spec fn wf(&self) -> bool {
        let p = self.chunk() as int;
        let n = self.data@.len() as int;
        &&& self.bits < usize::BITS
        &&& forall|c: int| 0 <= c < n ==> 0 < #[trigger] self.data@[c]@.len() <= p
        &&& forall|c: int| 0 <= c < n - 1 ==> #[trigger] self.data@[c]@.len() == p
        &&& self.elements == (if n == 0 { 0 } else { (n - 1) * p + self.data@[n - 1]@.len() })
    }

    /// Every element lies within its chunk.
    proof fn lemma_in_range(&self, i: int)
        requires
            self.wf(),
            0 <= i < self.elements,
        ensures
            0 <= i / (self.chunk() as int) < self.data@.len(),
            0 <= i % (self.chunk() as int) < self.data@[i / (self.chunk() as int)]@.len(),
    {
        let p = self.chunk() as int;
        lemma_pow2_pos(self.bits as nat);
        let n = self.data@.len() as int;
        lemma_div_mod(i, p);
        let c = i / p;
        let o = i % p;
        let l = self.data@[n - 1]@.len() as int;
        if c >= n {
            assert(c * p >= n * p) by (nonlinear_arith)
                requires
                    c >= n,
                    p > 0,
            ;
            assert(n * p == (n - 1) * p + p) by (nonlinear_arith);
        }
        if c == n - 1 {
            assert(o < l);
        } else {
            assert(c < n - 1);
        }
    }

    /// An empty vector whose chunks hold `2^bits` elements.
    pub fn new(bits: usize) -> (r: ArrayVec<D>)
        requires
            bits < usize::BITS,
        ensures
            r.wf(),
            r@.len() == 0,
            r.bits() == bits,
    {
        let r = ArrayVec { bits, elements: 0, data: Vec::new() };
        assert(r@ =~= Seq::empty());
        r
    }

    /// The number of elements.
    pub fn len(&self) -> (r: usize)
        requires
            self.wf(),
        ensures
            r == self@.len(),
    {
        self.elements
    }

    /// Which chunk, and which position in it, element `i` is stored at.
    pub fn index(&self, i: usize) -> (r: (usize, usize))
        requires
            self.wf(),
        ensures
            r.0 == i as int / (self.chunk() as int),
            r.1 == i as int % (self.chunk() as int),
    {
        proof {
            lemma_usize_pow2_no_overflow(self.bits as nat);
            lemma_usize_shl_is_mul(1, self.bits);
            lemma_usize_shr_is_div(i, self.bits);
            lemma_usize_low_bits_mask_is_mod(i, self.bits as nat);
        }
        let size = 1usize << self.bits;
        let low = i & (size - 1);
        let hig = i >> self.bits;
        (hig, low)
    }

    /// Appends `d`.
    pub fn push(&mut self, d: D)
        requires
            old(self).wf(),
            old(self)@.len() < usize::MAX,
        ensures
            final(self).wf(),
            final(self)@ == old(self)@.push(d),
            final(self).bits() == old(self).bits(),
    {
        proof {
            lemma_usize_pow2_no_overflow(self.bits as nat);
            lemma_usize_shl_is_mul(1, self.bits);
            lemma_pow2_pos(self.bits as nat);
        }
        let ghost old_v = self@;
        let ghost p = self.chunk() as int;
        let ghost n = self.data@.len() as int;
        let size_per = 1usize << self.bits;
        let need_new = if self.data.len() == 0 {
            true
        } else {
            self.data[self.data.len() - 1].len() >= size_per
        };
        if need_new {
            self.data.push(Vec::new());
        }
        let last = self.data.len() - 1;
        let mut chunk = self.data.remove(last);
        chunk.push(d);
        self.data.push(chunk);
        self.elements = self.elements + 1;
        proof {
            let n2 = self.data@.len() as int;
            assert forall|c: int| 0 <= c < n2 - 1 implies #[trigger] self.data@[c]@.len() == p by {
                if c < n - 1 {
                } else {
                    assert(need_new);
                }
            }
            assert forall|i: int| 0 <= i < old_v.len() implies #[trigger] self@[i] == old_v[i] by {
                let ghost old_self = *old(self);
                old_self.lemma_in_range(i);
                let c = i / p;
                if c == last {
                    assert(self.data@[c]@ == old_self.data@[c]@.push(d));
                }
            }
            let e = old_v.len() as int;
            if need_new {
                lemma_position(n, 0, p);
                if n > 0 {
                    assert((n - 1) * p + p == n * p) by (nonlinear_arith);
                }
                assert(e == n * p + 0);
            } else {
                let l = old(self).data@[n - 1]@.len() as int;
                lemma_position(n - 1, l, p);
            }
            assert(self@ =~= old_v.push(d));
        }
    }

    /// The element at `i`.
    pub fn get(&self, i: usize) -> (r: &D)
        requires
            self.wf(),
            i < self@.len(),
        ensures
            *r == self@[i as int],
    {
        let (hig, low) = self.index(i);
        proof {
            self.lemma_in_range(i as int);
        }
        &self.data[hig][low]
    }

    /// Replaces the element at `i` with `d`.
    pub fn set(&mut self, i: usize, d: D)
        requires
            old(self).wf(),
            i < old(self)@.len(),
        ensures
            final(self).wf(),
            final(self)@ == old(self)@.update(i as int, d),
            final(self).bits() == old(self).bits(),
    {
        let (hig, low) = self.index(i);
        proof {
            self.lemma_in_range(i as int);
        }
        let ghost old_self = *self;
        let mut chunk = self.data.remove(hig);
        chunk.set(low, d);
        self.data.insert(hig, chunk);
        proof {
            let p = self.chunk() as int;
            assert forall|j: int| 0 <= j < old_self.elements implies #[trigger] self@[j] == old_self@.update(i as int, d)[j] by {
                old_self.lemma_in_range(j);
                if j != i {
                    lemma_div_mod(j, p);
                    lemma_div_mod(i as int, p);
                    if j / p == (i as int) / p {
                        assert(j % p != (i as int) % p);
                    }
                }
            }
            assert(self@ =~= old_self@.update(i as int, d));
        }
    }

    /// The element at `i`, to modify in place.
    pub fn get_mut(&mut self, i: usize) -> (r: &mut D)
        requires
            old(self).wf(),
            i < old(self)@.len(),
        ensures
            *r == old(self)@[i as int],
            final(self).wf(),
            final(self)@ == old(self)@.update(i as int, *final(r)),
            final(self).bits() == old(self).bits(),
    {
        let (hig, low) = self.index(i);
        proof {
            self.lemma_in_range(i as int);
        }
        broadcast use ArrayVec::lemma_update_view;
        &mut self.data[hig][low]
    }

    /// Changing the element at chunk `i / chunk`, offset `i % chunk`, changes the
    /// view at `i` only.
    broadcast proof fn lemma_update_view(a: ArrayVec<D>, b: ArrayVec<D>, i: int, v: D)
        requires
            a.wf(),
            0 <= i < a.elements,
            b.bits == a.bits,
            b.elements == a.elements,
            0 <= i / (a.chunk() as int) < a.data@.len(),
            b.data@.len() == a.data@.len(),
            forall|c: int| 0 <= c < a.data@.len() && c != i / (a.chunk() as int) ==> #[trigger] b.data@[c] == a.data@[c],
            b.data@[i / (a.chunk() as int)]@ == a.data@[i / (a.chunk() as int)]@.update(i % (a.chunk() as int), v),
        ensures
            #![trigger b@, a@.update(i, v)]
            b.wf(),
            b@ == a@.update(i, v),
    {
        a.lemma_in_range(i);
        let p = a.chunk() as int;
        lemma_pow2_pos(a.bits as nat);
        assert forall|j: int| 0 <= j < a.elements implies #[trigger] b@[j] == a@.update(i, v)[j] by {
            a.lemma_in_range(j);
            if j != i {
                lemma_div_mod(j, p);
                lemma_div_mod(i, p);
                if j / p == i / p {
                    assert(j % p != i % p);
                }
            }
        }
        assert(b@ =~= a@.update(i, v));
    }

    /// An iterator over the elements, in order.
    pub fn iter<'a>(&'a self) -> (r: ArrayVecIter<'a, D>)
        requires
            self.wf(),
        ensures
            r.rest() == self@,
    {
        ArrayVecIter { vec: self, pos: 0 }
    }
}

/// Walks the elements of an `ArrayVec` in order.
pub struct ArrayVecIter<'a, D> {
    vec: &'a ArrayVec<D>,
    pos: usize,
}

impl<'a, D> ArrayVecIter<'a, D> {
    /// The elements not yet returned.
    pub closed spec fn rest(&self) -> Seq<D> {
        self.vec@.subrange(self.pos as int, self.vec@.len() as int)
    }

    pub closed spec fn wf(&self) -> bool {
        self.vec.wf() && self.pos <= self.vec@.len()
    }

    /// The next element, or `None` when all have been returned.
    pub fn next(&mut self) -> (r: Option<&'a D>)
        requires
            old(self).wf(),
        ensures
            final(self).wf(),
            old(self).rest().len() == 0 ==> r is None && final(self).rest() == old(self).rest(),
            old(self).rest().len() > 0 ==> r == Some(&old(self).rest()[0]) && final(self).rest()
                == old(self).rest().drop_first(),
    {
        if self.pos >= self.vec.len() {
            return None;
        }
        let r = self.vec.get(self.pos);
        self.pos = self.pos + 1;
        proof {
            assert(self.rest() =~= old(self).rest().drop_first());
        }
        Some(r)
    }
}

} // verus!

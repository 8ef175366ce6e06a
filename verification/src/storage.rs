//! Column storage types: `VecCol` keeps elements in a `Vec`, `BoolCol` packs
//! booleans into a bit vector.

use vstd::prelude::*;
use bit_vec::BitVec;
use crate::columns::TCol;

verus! {

/// Stores data contiguously in a `Vec`. This is ideal for tables that do not
/// have rows added to them often.
#[derive(Debug)]
pub struct VecCol<E> {
    data: Vec<E>,
}

impl<E> TCol for VecCol<E> {
    type Element = E;

    closed spec fn view(&self) -> Seq<E> {
        self.data@
    }

    closed spec fn wf(&self) -> bool {
        true
    }

    open spec fn allows_mut() -> bool {
        true
    }

    fn new() -> (r: Self) {
        VecCol { data: Vec::new() }
    }

    fn len(&self) -> (r: usize) {
        self.data.len()
    }

    fn truncate(&mut self, len: usize) {
        self.data.truncate(len);
    }

    fn unchecked_index(&self, i: usize) -> (r: &E) {
        &self.data[i]
    }

    fn unchecked_index_mut(&mut self, i: usize) -> (r: &mut E) {
        &mut self.data[i]
    }

    fn reserve(&mut self, n: usize) {
        self.data.reserve(n);
    }

    fn clear(&mut self) {
        self.data.clear();
    }

    fn push(&mut self, v: E) {
        self.data.push(v);
    }

    fn unchecked_swap_out(&mut self, i: usize, new: &mut E) {
        core::mem::swap(&mut self.data[i], new);
    }

    fn unchecked_swap(&mut self, a: usize, b: usize) {
        if a == b {
            return;
        }
        let (lo, hi) = if a < b {
            (a, b)
        } else {
            (b, a)
        };
        let ghost s = self.data@;
        let vh = self.data.remove(hi);
        let vl = self.data.remove(lo);
        self.data.insert(lo, vh);
        self.data.insert(hi, vl);
        assert(self.data@ =~= s.update(a as int, s[b as int]).update(b as int, s[a as int]));
    }

    fn deleted(&mut self, i: usize) {
    }

    fn checked_index(&self, i: usize) -> (r: &E) {
        &self.data[i]
    }
}

#[verifier::external_type_specification]
#[verifier::external_body]
#[verifier::reject_recursive_types(B)]
pub struct ExBitVec<B>(BitVec<B>);

/// The bits a `BitVec` holds, in order.
pub uninterp spec fn bitvec_bits(v: BitVec<u32>) -> Seq<bool>;

/// `BitVec::new`: an empty bit vector.
#[verifier::external_body]
fn bits_new() -> (r: BitVec<u32>)
    ensures
        bitvec_bits(r) == Seq::<bool>::empty(),
{
    BitVec::new()
}

/// `BitVec::len`: the number of bits.
#[verifier::external_body]
fn bits_len(v: &BitVec<u32>) -> (r: usize)
    ensures
        r == bitvec_bits(*v).len(),
{
    v.len()
}

/// `BitVec::get`: the bit at `i`, or `None` past the end.
#[verifier::external_body]
fn bits_get(v: &BitVec<u32>, i: usize) -> (r: Option<bool>)
    ensures
        i < bitvec_bits(*v).len() ==> r == Some(bitvec_bits(*v)[i as int]),
        i >= bitvec_bits(*v).len() ==> r is None,
{
    v.get(i)
}

/// `BitVec::set`: sets the bit at `i` (which must be in range) to `x`.
#[verifier::external_body]
fn bits_set(v: &mut BitVec<u32>, i: usize, x: bool)
    requires
        i < bitvec_bits(*old(v)).len(),
    ensures
        bitvec_bits(*final(v)) == bitvec_bits(*old(v)).update(i as int, x),
{
    v.set(i, x)
}

/// `BitVec::push`: appends a bit.
#[verifier::external_body]
fn bits_push(v: &mut BitVec<u32>, x: bool)
    requires
        bitvec_bits(*old(v)).len() < usize::MAX,
    ensures
        bitvec_bits(*final(v)) == bitvec_bits(*old(v)).push(x),
{
    v.push(x)
}

/// `BitVec::truncate`: keeps the first `len` bits.
#[verifier::external_body]
fn bits_truncate(v: &mut BitVec<u32>, len: usize)
    ensures
        bitvec_bits(*final(v)) == (if len < bitvec_bits(*old(v)).len() {
            bitvec_bits(*old(v)).take(len as int)
        } else {
            bitvec_bits(*old(v))
        }),
{
    v.truncate(len)
}

/// `BitVec::reserve`: makes room for `n` more bits, keeping the bits.
#[verifier::external_body]
fn bits_reserve(v: &mut BitVec<u32>, n: usize)
    requires
        bitvec_bits(*old(v)).len() + n <= usize::MAX,
    ensures
        bitvec_bits(*final(v)) == bitvec_bits(*old(v)),
{
    v.reserve(n)
}

/// Densely packed booleans. One element at a time can be lent out for
/// mutation: it is kept in `ref_val` until the next structural operation writes
/// it back.
#[derive(Debug)]
pub struct BoolCol {
    ref_val: bool,
    ref_idx: usize,
    data: BitVec<u32>,
}

impl BoolCol {
    /// The elements with the lent-out one (if any) in its place.
    pub open spec fn elements(ref_val: bool, ref_idx: usize, bits: Seq<bool>) -> Seq<bool> {
        Seq::new(bits.len(), |i: int| if i == ref_idx { ref_val } else { bits[i] })
    }

    /// Writes the lent-out element back into the bit vector.
    fn flush(&mut self)
        requires
            old(self).wf(),
        ensures
            final(self).wf(),
            final(self).view() == old(self).view(),
            final(self).ref_idx == usize::MAX,
    {
        if self.ref_idx >= bits_len(&self.data) {
            return;
        }
        let ghost before = self.view();
        bits_set(&mut self.data, self.ref_idx, self.ref_val);
        self.ref_idx = usize::MAX;
        assert(self.view() =~= before);
    }
}

/// The column that lends out element `i` for mutation, and the same column once
/// the element came back as `v`, differ at `i` only.
broadcast proof fn lemma_lend(a: BoolCol, b: BoolCol, i: int, v: bool)
    requires
        a.wf(),
        a.ref_idx == usize::MAX,
        0 <= i < bitvec_bits(a.data).len(),
        b.data == a.data,
        b.ref_idx == i,
        b.ref_val == v,
    ensures
        #![trigger b.view(), a.view().update(i, v)]
        b.wf(),
        b.view() == a.view().update(i, v),
{
    assert(b.view() =~= a.view().update(i, v));
}

impl Default for BoolCol {
    fn default() -> (r: BoolCol)
        ensures
            r.wf(),
            r.view().len() == 0,
    {
        BoolCol { ref_val: false, ref_idx: usize::MAX, data: bits_new() }
    }
}

impl TCol for BoolCol {
    type Element = bool;

    closed spec fn view(&self) -> Seq<bool> {
        BoolCol::elements(self.ref_val, self.ref_idx, bitvec_bits(self.data))
    }

    closed spec fn wf(&self) -> bool {
        &&& self.ref_idx < bitvec_bits(self.data).len() || self.ref_idx == usize::MAX
        &&& bitvec_bits(self.data).len() <= usize::MAX
    }

    open spec fn allows_mut() -> bool {
        true
    }

    fn new() -> (r: BoolCol) {
        BoolCol::default()
    }

    fn len(&self) -> (r: usize) {
        bits_len(&self.data)
    }

    fn truncate(&mut self, len: usize) {
        self.flush();
        let ghost before = self.view();
        bits_truncate(&mut self.data, len);
        assert(self.view() =~= (if len < before.len() {
            before.take(len as int)
        } else {
            before
        }));
    }

    fn unchecked_index(&self, i: usize) -> (r: &bool) {
        if i == self.ref_idx {
            &self.ref_val
        } else if bits_get(&self.data, i).unwrap() {
            &true
        } else {
            &false
        }
    }

    fn unchecked_index_mut(&mut self, i: usize) -> (r: &mut bool) {
        self.flush();
        self.ref_idx = i;
        self.ref_val = bits_get(&self.data, i).unwrap();
        broadcast use lemma_lend;
        &mut self.ref_val
    }

    fn reserve(&mut self, n: usize) {
        bits_reserve(&mut self.data, n);
    }

    fn clear(&mut self) {
        self.truncate(0);
    }

    fn push(&mut self, v: bool) {
        let ghost before = self.view();
        bits_push(&mut self.data, v);
        assert(self.view() =~= before.push(v));
    }

    fn unchecked_swap_out(&mut self, i: usize, new: &mut bool) {
        self.flush();
        let new_v = *new;
        *new = bits_get(&self.data, i).unwrap();
        let ghost before = self.view();
        bits_set(&mut self.data, i, new_v);
        assert(self.view() =~= before.update(i as int, new_v));
    }

    fn unchecked_swap(&mut self, a: usize, b: usize) {
        self.flush();
        let ghost before = self.view();
        let av = bits_get(&self.data, a).unwrap();
        let bv = bits_get(&self.data, b).unwrap();
        bits_set(&mut self.data, a, bv);
        bits_set(&mut self.data, b, av);
        assert(self.view() =~= before.update(a as int, before[b as int]).update(b as int, before[a as int]));
    }

    fn deleted(&mut self, i: usize) {
    }

    fn checked_index(&self, i: usize) -> (r: &bool) {
        self.unchecked_index(i)
    }
}

} // verus!

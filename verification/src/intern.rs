//! Internal helpers shared by the registry: name validation and small
//! wrapper types.

use vstd::prelude::*;
use vstd::string::StringSliceAdditionalSpecFns;
use std::sync::{LockResult, PoisonError, TryLockError, TryLockResult};

verus! {

/// Concatenation regroups freely.
pub broadcast proof fn lemma_concat_regroup(a: Seq<u8>, b: Seq<u8>, c: Seq<u8>)
    ensures
        #[trigger] (a + (b + c)) == (a + b) + c,
{
    assert(a + (b + c) =~= (a + b) + c);
}

/// An ASCII letter, as a byte.
pub open spec fn is_ascii_letter(b: u8) -> bool {
    (65 <= b && b <= 90) || (97 <= b && b <= 122)
}

/// A byte that may appear after the first one in a name.
pub open spec fn is_name_byte(b: u8) -> bool {
    is_ascii_letter(b) || (48 <= b && b <= 57) || b == 95
}

/// A name is valid when it is non-empty, starts with an ASCII letter,
/// and consists only of ASCII letters, digits and underscores.
/// (The test is made on the UTF-8 bytes: every non-ASCII character
/// encodes to bytes outside that set.)
pub open spec fn valid_name_bytes(s: Seq<u8>) -> bool {
    &&& s.len() > 0
    &&& is_ascii_letter(s[0])
    &&& forall|i: int| 0 <= i < s.len() ==> is_name_byte(#[trigger] s[i])
}

/// A name given by its characters is valid when its UTF-8 encoding is.
pub open spec fn valid_name_view(v: Seq<char>) -> bool {
    valid_name_bytes(vstd::utf8::encode_utf8(v))
}

pub open spec fn valid_name(name: &str) -> bool {
    valid_name_view(name@)
}

/// Why a name was refused.
#[derive(Debug, Clone, Copy, PartialEq, Eq, Structural)]
pub enum NameError {
    /// The name has no characters.
    Empty,
    /// The name starts with an underscore.
    Reserved,
    /// The name starts with something other than a letter, or holds a
    /// character that is not a letter, digit or underscore.
    Invalid,
}

/// Why the name with these bytes is refused, when it is.
pub open spec fn name_error_of(s: Seq<u8>) -> NameError {
    if s.len() == 0 {
        NameError::Empty
    } else if s[0] == 95 {
        NameError::Reserved
    } else {
        NameError::Invalid
    }
}

/// Asserts that `name` is usable as a domain, property, table or column name.
/// A refused name is a programming error, so callers must pass a valid one
/// (`name_error` tells which names are refused, and why).
pub fn check_name(name: &str)
    requires
        valid_name(name),
{
}

/// Tests whether `name` is usable as a domain, property, table or column name:
/// `None` if it is, else why it is refused.
pub fn name_error(name: &str) -> (r: Option<NameError>)
    ensures
        r is None <==> valid_name(name),
        r matches Some(e) ==> e == name_error_of(name.spec_bytes()),
{
    let bytes = name.as_bytes();
    let n = bytes.len();
    if n == 0 {
        return Some(NameError::Empty);
    }
    let first = bytes[0];
    if first == 95u8 {
        return Some(NameError::Reserved);
    }
    if !((65u8 <= first && first <= 90u8) || (97u8 <= first && first <= 122u8)) {
        return Some(NameError::Invalid);
    }
    let mut i: usize = 0;
    while i < n
        invariant
            n == bytes@.len(),
            bytes@ == name.spec_bytes(),
            0 <= i <= n,
            n > 0,
            bytes@[0] != 95,
            is_ascii_letter(bytes@[0]),
            forall|j: int| 0 <= j < i ==> is_name_byte(#[trigger] bytes@[j]),
        decreases n - i,
    {
        let c = bytes[i];
        if !((65u8 <= c && c <= 90u8) || (97u8 <= c && c <= 122u8) || (48u8 <= c && c <= 57u8) || c == 95u8) {
            return Some(NameError::Invalid);
        }
        i = i + 1;
    }
    None
}


/// A value that is owned, borrowed, or missing.
pub enum MaybeBorrow<'a, T> {
    Owned(T),
    Nothing,
    Borrow(&'a mut T),
}

impl<'a, T> MaybeBorrow<'a, T> {
    pub fn is_owned(&self) -> (r: bool)
        ensures
            r == (*self is Owned),
    {
        match self {
            MaybeBorrow::Owned(_) => true,
            _ => false,
        }
    }

    pub fn is_missing(&self) -> (r: bool)
        ensures
            r == (*self is Nothing),
    {
        match self {
            MaybeBorrow::Nothing => true,
            _ => false,
        }
    }

    /// The value, owned or borrowed; there must be one.
    pub fn deref(&self) -> (r: &T)
        requires
            !(*self is Nothing),
        ensures
            *self matches MaybeBorrow::Owned(t) ==> *r == t,
    {
        match self {
            MaybeBorrow::Owned(t) => t,
            MaybeBorrow::Nothing => vstd::pervasive::unreached(),
            MaybeBorrow::Borrow(t) => &**t,
        }
    }
}

/// One of two kinds of references to the same type of value.
pub enum BiRef<A, B> {
    Left(A),
    Right(B),
}

impl<A: core::ops::Deref<Target = T>, B: core::ops::Deref<Target = T>, T> BiRef<A, B> {
    /// The value referred to, whichever kind of reference holds it.
    pub fn deref(&self) -> (r: &T)
        ensures
            match self {
                BiRef::Left(a) => call_ensures(A::deref, (a,), r),
                BiRef::Right(b) => call_ensures(B::deref, (b,), r),
            },
    {
        match self {
            BiRef::Left(a) => a.deref(),
            BiRef::Right(b) => b.deref(),
        }
    }
}

/// An iterator that never yields anything.
pub struct VoidIter<I>(pub I);

impl<I> VoidIter<I> {
    pub fn next(&mut self) -> (r: Option<I>)
        ensures
            r is None,
            *final(self) == *old(self),
    {
        None
    }
}

/// Two string slices are equal, as sequences of characters.
pub fn str_eq(a: &str, b: &str) -> (r: bool)
    ensures
        r == (a@ == b@),
{
    broadcast use vstd::utf8::encode_utf8_decode_utf8;
    let x = a.as_bytes();
    let y = b.as_bytes();
    if x.len() != y.len() {
        return false;
    }
    let n = x.len();
    let mut i: usize = 0;
    while i < n
        invariant
            n == x@.len(),
            n == y@.len(),
            x@ == a.spec_bytes(),
            y@ == b.spec_bytes(),
            0 <= i <= n,
            forall|j: int| 0 <= j < i ==> x@[j] == y@[j],
        decreases n - i,
    {
        if x[i] != y[i] {
            return false;
        }
        i = i + 1;
    }
    assert(x@ =~= y@);
    assert(vstd::utf8::decode_utf8(a.spec_bytes()) == a@);
    assert(vstd::utf8::decode_utf8(b.spec_bytes()) == b@);
    true
}


#[verifier::external_type_specification]
#[verifier::external_body]
#[verifier::reject_recursive_types(T)]
pub struct ExPoisonError<T>(PoisonError<T>);

#[verifier::external_type_specification]
#[verifier::external_body]
#[verifier::reject_recursive_types(T)]
pub struct ExTryLockError<T>(TryLockError<T>);

/// `PoisonError::into_inner`: the guard that the poisoned lock handed out.
#[verifier::external_body]
fn poison_into_inner<T>(p: PoisonError<T>) -> T {
    p.into_inner()
}

/// `PoisonError::new`: a poison error around `t`.
#[verifier::external_body]
fn poison_new<T>(t: T) -> PoisonError<T> {
    PoisonError::new(t)
}

/// The poison error inside `e`, if `e` is `TryLockError::Poisoned` (rather than
/// `WouldBlock`).
#[verifier::external_body]
fn try_lock_poison<T>(e: TryLockError<T>) -> Option<PoisonError<T>> {
    match e {
        TryLockError::Poisoned(p) => Some(p),
        TryLockError::WouldBlock => None,
    }
}

/// `TryLockError::Poisoned(p)`.
#[verifier::external_body]
fn try_lock_poisoned<T>(p: PoisonError<T>) -> TryLockError<T> {
    TryLockError::Poisoned(p)
}

/// `TryLockError::WouldBlock`.
#[verifier::external_body]
fn try_lock_would_block<T>() -> TryLockError<T> {
    TryLockError::WouldBlock
}

/// Applies `f` to the guard of a lock result, poisoned or not; the result stays
/// poisoned when it was.
pub fn map_result<G, F: FnOnce(G) -> R, R>(result: LockResult<G>, f: F) -> (r: LockResult<R>)
    requires
        forall|g: G| #[trigger] call_requires(f, (g,)),
    ensures
        match result {
            Ok(t) => r matches Ok(x) && call_ensures(f, (t,), x),
            Err(_) => r is Err,
        },
{
    match result {
        Ok(t) => Ok(f(t)),
        Err(poison) => Err(poison_new(f(poison_into_inner(poison)))),
    }
}

/// Applies `f` to the guard of a try-lock result, poisoned or not; a poisoned
/// result stays poisoned, and one that would block stays so.
pub fn map_try_result<G, F: FnOnce(G) -> R, R>(result: TryLockResult<G>, f: F) -> (r: TryLockResult<R>)
    requires
        forall|g: G| #[trigger] call_requires(f, (g,)),
    ensures
        match result {
            Ok(t) => r matches Ok(x) && call_ensures(f, (t,), x),
            Err(_) => r is Err,
        },
{
    match result {
        Ok(t) => Ok(f(t)),
        Err(e) => Err(
            match try_lock_poison(e) {
                Some(poison) => try_lock_poisoned(poison_new(f(poison_into_inner(poison)))),
                None => try_lock_would_block(),
            },
        ),
    }
}

} // verus!

//! Locks that can be taken on a universe, for contexts that juggle several.

use vstd::prelude::*;
use crate::{Schema, Universe};

verus! {

/// A type that can be locked on a universe.
pub trait Lockable<'u, S: Schema>: Sized {
    /// A unique name for the type.
    fn lock_name() -> &'static str;

    /// Takes the lock.
    fn lock(universe: &'u Universe<S>) -> Self;
}

} // verus!

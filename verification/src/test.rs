//! Row types used by the crate's own example tables.

use vstd::prelude::*;

verus! {

/// A kind of cheese.
#[derive(Clone, Copy, Debug, PartialEq, Eq, Structural)]
pub enum CheeseKind {
    Swiss,
    Stinky,
    Brie,
}

impl Default for CheeseKind {
    fn default() -> (r: CheeseKind)
        ensures
            r == CheeseKind::Stinky,
    {
        CheeseKind::Stinky
    }
}

} // verus!
